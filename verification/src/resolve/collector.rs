use super::{ResolveError, ResolveResult};
use crate::chars::str_eq;
use crate::name_space::ItemSymbol;
use vstd::prelude::*;

verus! {

broadcast use vstd::string::group_string_axioms;

/// The names defined so far, to refuse a name defined twice.
#[derive(Debug)]
pub struct SymbolCollector<'a> {
    collector: Vec<&'a str>,
    pending_items: Vec<ItemSymbol<'a>>,
}

impl<'a> SymbolCollector<'a> {
    #[verifier::type_invariant]
    closed spec fn inv(&self) -> bool {
        forall|j: int, k: int| 0 <= j < k < self.collector@.len() ==> #[trigger] self.collector@[j]@ != #[trigger] self.collector@[k]@
    }

    /// The names collected.
    pub closed spec fn names(&self) -> Set<Seq<char>> {
        self.collector@.map_values(|n: &'a str| n@).to_set()
    }

    /// A collector without names.
    pub fn new() -> (c: Self)
        ensures
            c.names() == Set::<Seq<char>>::empty(),
    {
        let c = Self { collector: Vec::new(), pending_items: Vec::new() };
        assert(c.names() =~= Set::<Seq<char>>::empty());
        c
    }

    /// Where `name` is in the list, if it is there.
    fn index_of(&self, name: &'a str) -> (r: Option<usize>)
        ensures
            r is Some <==> self.names().contains(name@),
            r matches Some(i) ==> i < self.collector@.len() && self.collector@[i as int]@ == name@,
    {
        let ghost names = self.collector@.map_values(|n: &'a str| n@);
        let mut i: usize = 0;
        while i < self.collector.len()
            invariant
                i <= self.collector@.len(),
                names == self.collector@.map_values(|n: &'a str| n@),
                forall|j: int| 0 <= j < i ==> #[trigger] self.collector@[j]@ != name@,
            decreases self.collector@.len() - i,
        {
            if str_eq(self.collector[i], name) {
                proof {
                    assert(names[i as int] == name@);
                }
                return Some(i);
            }
            i = i + 1;
        }
        proof {
            if names.contains(name@) {
                let j = choose|j: int| 0 <= j < names.len() && names[j] == name@;
                assert(self.collector@[j]@ == name@);
            }
        }
        None
    }

    pub fn contains(&self, name: &'a str) -> (r: bool)
        ensures
            r == self.names().contains(name@),
    {
        self.index_of(name).is_some()
    }

    /// Collects `name`; a name collected before is refused.
    pub fn insert(&mut self, name: &'a str) -> (res: ResolveResult<()>)
        ensures
            old(self).names().contains(name@) ==> final(self).names() == old(self).names() && (res matches Err(
                ResolveError::DuplicateDefinition { name: n },
            ) && n@ == name@),
            !old(self).names().contains(name@) ==> final(self).names() == old(self).names().insert(name@) && res is Ok,
    {
        if self.index_of(name).is_some() {
            return Err(ResolveError::DuplicateDefinition { name: name.to_string() });
        }
        proof {
            use_type_invariant(&*self);
        }
        let ghost before = self.collector@.map_values(|n: &'a str| n@);
        let ghost old_vec = self.collector@;
        let mut names = Vec::new();
        std::mem::swap(&mut names, &mut self.collector);
        names.push(name);
        proof {
            assert forall|j: int, k: int| 0 <= j < k < names@.len() implies #[trigger] names@[j]@ != #[trigger] names@[k]@ by {
                if k == names@.len() - 1 {
                    assert(old_vec[j]@ == before[j]);
                    assert(before.contains(before[j]));
                } else {
                    assert(names@[j] == old_vec[j] && names@[k] == old_vec[k]);
                }
            }
        }
        self.collector = names;
        proof {
            let after = self.collector@.map_values(|n: &'a str| n@);
            assert(after =~= before.push(name@));
            assert forall|k: Seq<char>| after.contains(k) <==> before.contains(k) || k == name@ by {
                if k == name@ {
                    assert(after[before.len() as int] == k);
                }
                if before.contains(k) {
                    let j = choose|j: int| 0 <= j < before.len() && before[j] == k;
                    assert(after[j] == k);
                }
                if after.contains(k) {
                    let j = choose|j: int| 0 <= j < after.len() && after[j] == k;
                    if j < before.len() {
                        assert(before[j] == k);
                    }
                }
            }
            assert(self.names() =~= old(self).names().insert(name@));
        }
        Ok(())
    }

    /// Forgets `name`; tells whether it was collected.
    pub fn remove(&mut self, name: &'a str) -> (removed: bool)
        ensures
            removed == old(self).names().contains(name@),
            final(self).names() == old(self).names().remove(name@),
    {
        match self.index_of(name) {
            Some(i) => {
                proof {
                    use_type_invariant(&*self);
                }
                let ghost before = self.collector@.map_values(|n: &'a str| n@);
                let ghost old_vec = self.collector@;
                let mut names = Vec::new();
                std::mem::swap(&mut names, &mut self.collector);
                names.remove(i);
                proof {
                    assert forall|j: int, k: int| 0 <= j < k < names@.len() implies #[trigger] names@[j]@ != #[trigger] names@[k]@ by {
                        let jj = if j < i { j } else { j + 1 };
                        let kk = if k < i { k } else { k + 1 };
                        assert(names@[j] == old_vec[jj] && names@[k] == old_vec[kk]);
                    }
                }
                self.collector = names;
                proof {
                    let after = self.collector@.map_values(|n: &'a str| n@);
                    assert(after =~= before.remove(i as int));
                    assert forall|k: Seq<char>| after.contains(k) <==> before.contains(k) && k != name@ by {
                        if after.contains(k) {
                            let j = choose|j: int| 0 <= j < after.len() && after[j] == k;
                            let jj = if j < i { j } else { j + 1 };
                            assert(before[jj] == k);
                            assert(old_vec[jj]@ == k);
                            if k == name@ {
                                assert(old_vec[i as int]@ == name@);
                            }
                        }
                        if before.contains(k) && k != name@ {
                            let j = choose|j: int| 0 <= j < before.len() && before[j] == k;
                            if j < i {
                                assert(after[j] == k);
                            } else {
                                assert(j != i);
                                assert(after[j - 1] == k);
                            }
                        }
                    }
                    assert(self.names() =~= old(self).names().remove(name@));
                }
                true
            },
            None => {
                assert(self.names() =~= old(self).names().remove(name@));
                false
            },
        }
    }
}

} // verus!
