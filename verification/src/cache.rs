use crate::chars::str_eq;
use crate::ir::{CompiledFunction, FunctionView};
use crate::primitive::{PrimitiveType, TypeView};
use std::collections::BTreeMap;
use vstd::prelude::*;

verus! {

broadcast use {vstd::std_specs::btree::group_btree_axioms, vstd::laws_cmp::group_laws_cmp};

/// Gives each name a number.
pub trait Allocator {
    fn allocate(&mut self, name: String) -> usize;
}

/// Stores values by number.
pub trait CacheCollector<T> {
    fn register(&mut self, id: usize, value: T);

    fn get(&self, id: &usize) -> Option<&T>;
}

/// Numbers names in the order they are first seen, from 0.
#[derive(Debug)]
pub struct LinearAllocator {
    name_map: Vec<(String, usize)>,
    next: usize,
}

impl LinearAllocator {
    /// The number of each name seen so far.
    pub closed spec fn numbers(&self) -> Map<Seq<char>, usize> {
        Map::new(
            |k: Seq<char>| exists|i: int| 0 <= i < self.name_map@.len() && #[trigger] self.name_map@[i].0@ == k,
            |k: Seq<char>| self.name_map@[choose|i: int| 0 <= i < self.name_map@.len() && #[trigger] self.name_map@[i].0@ == k].1,
        )
    }

    /// The number that the next new name gets.
    pub closed spec fn next(&self) -> nat {
        self.next as nat
    }

    /// Each name once, numbered by the order in which it was first seen.
    #[verifier::type_invariant]
    closed spec fn inv(&self) -> bool {
        &&& self.next == self.name_map@.len()
        &&& forall|i: int| 0 <= i < self.name_map@.len() ==> #[trigger] self.name_map@[i].1 == i
        &&& forall|i: int, j: int| 0 <= i < j < self.name_map@.len() ==> #[trigger] self.name_map@[i].0@ != #[trigger] self.name_map@[j].0@
    }

    /// The numbers handed out so far are below `next`, each to one name.
    pub open spec fn wf(&self) -> bool {
        &&& forall|k: Seq<char>| #[trigger] self.numbers().contains_key(k) ==> self.numbers()[k] < self.next()
        &&& forall|k1: Seq<char>, k2: Seq<char>|
            #[trigger] self.numbers().contains_key(k1) && #[trigger] self.numbers().contains_key(k2) && k1 != k2 ==> self.numbers()[k1] != self.numbers()[k2]
    }

    proof fn lemma_wf(&self)
        requires
            self.inv(),
        ensures
            self.wf(),
            forall|i: int| 0 <= i < self.name_map@.len() ==> #[trigger] self.numbers().contains_key(self.name_map@[i].0@)
                && self.numbers()[self.name_map@[i].0@] == i,
    {
        assert forall|i: int| 0 <= i < self.name_map@.len() implies #[trigger] self.numbers().contains_key(self.name_map@[i].0@)
            && self.numbers()[self.name_map@[i].0@] == i by {
            let k = self.name_map@[i].0@;
            let j = choose|j: int| 0 <= j < self.name_map@.len() && #[trigger] self.name_map@[j].0@ == k;
            if j < i {
                assert(self.name_map@[j].0@ != self.name_map@[i].0@);
            } else if i < j {
                assert(self.name_map@[i].0@ != self.name_map@[j].0@);
            }
        }
        assert forall|k: Seq<char>| #[trigger] self.numbers().contains_key(k) implies self.numbers()[k] < self.next() by {
            let j = choose|j: int| 0 <= j < self.name_map@.len() && #[trigger] self.name_map@[j].0@ == k;
            assert(self.numbers().contains_key(self.name_map@[j].0@));
        }
        assert forall|k1: Seq<char>, k2: Seq<char>|
            #[trigger] self.numbers().contains_key(k1) && #[trigger] self.numbers().contains_key(k2) && k1 != k2 implies self.numbers()[k1] != self.numbers()[k2] by {
            let j1 = choose|j: int| 0 <= j < self.name_map@.len() && #[trigger] self.name_map@[j].0@ == k1;
            let j2 = choose|j: int| 0 <= j < self.name_map@.len() && #[trigger] self.name_map@[j].0@ == k2;
            assert(self.numbers().contains_key(self.name_map@[j1].0@));
            assert(self.numbers().contains_key(self.name_map@[j2].0@));
        }
    }

    /// An allocator that has seen no name.
    pub fn new() -> (a: Self)
        ensures
            a.numbers() == Map::<Seq<char>, usize>::empty(),
            a.next() == 0,
            a.wf(),
    {
        let a = Self { name_map: Vec::new(), next: 0 };
        proof {
            assert(a.numbers() =~= Map::<Seq<char>, usize>::empty());
            a.lemma_wf();
        }
        a
    }
}

impl Allocator for LinearAllocator {
    #[verifier::loop_isolation(false)]
    /// The number of `name`: the one it got when first seen, or else the next one.
    fn allocate(&mut self, name: String) -> (id: usize)
        ensures
            old(self).numbers().contains_key(name@) ==> id == old(self).numbers()[name@] && final(self).numbers()
                == old(self).numbers() && final(self).next() == old(self).next(),
            !old(self).numbers().contains_key(name@) ==> id == old(self).next() && final(self).numbers()
                == old(self).numbers().insert(name@, id) && final(self).next() == old(self).next() + 1,
            final(self).wf(),
    {
        proof {
            use_type_invariant(&*self);
            self.lemma_wf();
        }
        let mut i: usize = 0;
        while i < self.name_map.len()
            invariant
                i <= self.name_map@.len(),
                forall|j: int| 0 <= j < i ==> #[trigger] self.name_map@[j].0@ != name@,
            decreases self.name_map@.len() - i,
        {
            if str_eq(self.name_map[i].0.as_str(), name.as_str()) {
                proof {
                    assert(self.numbers().contains_key(self.name_map@[i as int].0@));
                }
                return self.name_map[i].1;
            }
            i = i + 1;
        }
        proof {
            assert(!self.numbers().contains_key(name@));
        }
        let ghost before = self.name_map@;
        let mut taken = LinearAllocator::new();
        std::mem::swap(&mut taken, self);
        proof {
            use_type_invariant(&taken);
        }
        let LinearAllocator { name_map: mut entries, next: id } = taken;
        entries.push((name, id));
        let next = entries.len();
        *self = LinearAllocator { name_map: entries, next };
        proof {
            assert(self.name_map@ == before.push((name, id)));
            assert forall|k: Seq<char>| #[trigger] self.numbers().contains_key(k) <==> old(self).numbers().insert(name@, id).contains_key(k) by {
                if k == name@ {
                    assert(self.name_map@[before.len() as int].0@ == k);
                }
                if old(self).numbers().contains_key(k) && k != name@ {
                    let j = choose|j: int| 0 <= j < before.len() && #[trigger] before[j].0@ == k;
                    assert(self.name_map@[j] == before[j]);
                }
                if self.numbers().contains_key(k) && k != name@ {
                    let j = choose|j: int| 0 <= j < self.name_map@.len() && #[trigger] self.name_map@[j].0@ == k;
                    assert(before[j] == self.name_map@[j]);
                }
            }
            self.lemma_wf();
            old(self).lemma_wf();
            assert forall|k: Seq<char>| #[trigger] self.numbers().contains_key(k) implies self.numbers()[k] == old(self).numbers().insert(name@, id)[k] by {
                let j = choose|j: int| 0 <= j < self.name_map@.len() && #[trigger] self.name_map@[j].0@ == k;
                assert(self.numbers()[self.name_map@[j].0@] == j);
                if k != name@ {
                    assert(before[j] == self.name_map@[j]);
                    assert(old(self).numbers()[before[j].0@] == j);
                }
            }
            assert(self.numbers() =~= old(self).numbers().insert(name@, id));
        }
        id
    }
}

/// The types of the language by number.
#[derive(Debug)]
pub struct TypeCache {
    types: BTreeMap<usize, PrimitiveType>,
    allocator: LinearAllocator,
}

impl TypeCache {
    /// The registered types by number.
    pub closed spec fn types(&self) -> Map<usize, TypeView> {
        self.types@.map_values(|t: PrimitiveType| t@)
    }

    /// A cache without types.
    pub fn new() -> (c: Self)
        ensures
            c.types() == Map::<usize, TypeView>::empty(),
    {
        let c = Self { types: BTreeMap::new(), allocator: LinearAllocator::new() };
        assert(c.types() =~= Map::<usize, TypeView>::empty());
        c
    }
}

impl CacheCollector<PrimitiveType> for TypeCache {
    /// Registers `value` under `id`, replacing what was there.
    fn register(&mut self, id: usize, value: PrimitiveType)
        ensures
            final(self).types() == old(self).types().insert(id, value@),
    {
        let ghost v = value@;
        self.types.insert(id, value);
        assert(self.types() =~= old(self).types().insert(id, v));
    }

    /// The type registered under `id`.
    fn get(&self, id: &usize) -> (t: Option<&PrimitiveType>)
        ensures
            match t {
                Some(t) => self.types().contains_key(*id) && t@ == self.types()[*id],
                None => !self.types().contains_key(*id),
            },
    {
        self.types.get(id)
    }
}

/// The compiled functions by number, and the numbering of their names.
#[derive(Debug)]
pub struct FunctionCache {
    functions: BTreeMap<usize, CompiledFunction>,
    allocator: LinearAllocator,
}

impl FunctionCache {
    /// The registered functions by number.
    pub closed spec fn functions(&self) -> Map<usize, FunctionView> {
        self.functions@.map_values(|f: CompiledFunction| f@)
    }

    /// The numbers that the cache's allocator has given to names.
    pub closed spec fn function_ids(&self) -> Map<Seq<char>, usize> {
        self.allocator.numbers()
    }

    /// A cache without functions whose allocator has seen no name.
    pub fn new() -> (c: Self)
        ensures
            c.functions() == Map::<usize, FunctionView>::empty(),
            c.function_ids() == Map::<Seq<char>, usize>::empty(),
    {
        let c = Self { functions: BTreeMap::new(), allocator: LinearAllocator::new() };
        assert(c.functions() =~= Map::<usize, FunctionView>::empty());
        c
    }

    /// The allocator that numbers the function names.
    pub fn get_allocator(&mut self) -> (a: &mut LinearAllocator)
        ensures
            a.numbers() == old(self).function_ids(),
            final(self).functions() == old(self).functions(),
            final(self).function_ids() == final(a).numbers(),
    {
        &mut self.allocator
    }
}

impl CacheCollector<CompiledFunction> for FunctionCache {
    /// Registers `value` under `id`, replacing what was there.
    fn register(&mut self, id: usize, value: CompiledFunction)
        ensures
            final(self).functions() == old(self).functions().insert(id, value@),
            final(self).function_ids() == old(self).function_ids(),
    {
        let ghost v = value@;
        self.functions.insert(id, value);
        assert(self.functions() =~= old(self).functions().insert(id, v));
    }

    /// The function registered under `id`.
    fn get(&self, id: &usize) -> (f: Option<&CompiledFunction>)
        ensures
            match f {
                Some(f) => self.functions().contains_key(*id) && f@ == self.functions()[*id],
                None => !self.functions().contains_key(*id),
            },
    {
        self.functions.get(id)
    }
}

/// The caches of compiled functions and of types.
#[derive(Debug)]
pub struct Cache {
    function_cache: FunctionCache,
    type_cache: TypeCache,
}

impl Cache {
    /// The registered functions by number.
    pub closed spec fn functions(&self) -> Map<usize, FunctionView> {
        self.function_cache.functions()
    }

    /// The registered types by number.
    pub closed spec fn types(&self) -> Map<usize, TypeView> {
        self.type_cache.types()
    }

    /// The numbers given to function names.
    pub closed spec fn function_ids(&self) -> Map<Seq<char>, usize> {
        self.function_cache.function_ids()
    }

    /// Empty caches.
    pub fn new() -> (c: Self)
        ensures
            c.functions() == Map::<usize, FunctionView>::empty(),
            c.types() == Map::<usize, TypeView>::empty(),
            c.function_ids() == Map::<Seq<char>, usize>::empty(),
    {
        Self { function_cache: FunctionCache::new(), type_cache: TypeCache::new() }
    }

    /// Registers a type under `id`.
    pub fn register_type(&mut self, id: usize, primitive_type: PrimitiveType)
        ensures
            final(self).types() == old(self).types().insert(id, primitive_type@),
            final(self).functions() == old(self).functions(),
            final(self).function_ids() == old(self).function_ids(),
    {
        self.type_cache.register(id, primitive_type);
    }

    /// Registers a compiled function under `id`.
    pub fn register_function(&mut self, id: usize, function: CompiledFunction)
        ensures
            final(self).functions() == old(self).functions().insert(id, function@),
            final(self).types() == old(self).types(),
            final(self).function_ids() == old(self).function_ids(),
    {
        self.function_cache.register(id, function);
    }

    /// The function registered under `id`.
    pub fn get_function(&self, id: &usize) -> (f: Option<&CompiledFunction>)
        ensures
            match f {
                Some(f) => self.functions().contains_key(*id) && f@ == self.functions()[*id],
                None => !self.functions().contains_key(*id),
            },
    {
        self.function_cache.get(id)
    }

    /// The allocator that numbers the function names.
    pub fn get_function_allocator(&mut self) -> (a: &mut LinearAllocator)
        ensures
            a.numbers() == old(self).function_ids(),
            final(self).functions() == old(self).functions(),
            final(self).types() == old(self).types(),
            final(self).function_ids() == final(a).numbers(),
    {
        self.function_cache.get_allocator()
    }
}

/// A function registered in the cache is what a later lookup of its number gives
/// back, and registering under one number leaves the functions under the others
/// as they were.
pub proof fn law_register_then_get(before: Cache, after: Cache, id: usize, f: FunctionView, other: usize)
    requires
        after.functions() == before.functions().insert(id, f),
    ensures
        after.functions().contains_key(id),
        after.functions()[id] == f,
        other != id ==> after.functions().contains_key(other) == before.functions().contains_key(other),
        other != id ==> after.functions()[other] == before.functions()[other],
{
}

} // verus!
