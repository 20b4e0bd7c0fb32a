use crate::chars::str_eq;
use vstd::prelude::*;

verus! {

/// The map that a list of named entries describes: a later entry wins.
pub open spec fn named_map<'a, T>(e: Seq<(&'a str, T)>) -> Map<Seq<char>, T>
    decreases e.len(),
{
    if e.len() == 0 {
        Map::empty()
    } else {
        named_map(e.drop_last()).insert(e.last().0@, e.last().1)
    }
}

/// `i` is the last entry named `k`.
pub open spec fn is_last_index<'a, T>(e: Seq<(&'a str, T)>, k: Seq<char>, i: int) -> bool {
    &&& 0 <= i < e.len()
    &&& e[i].0@ == k
    &&& forall|j: int| i < j < e.len() ==> #[trigger] e[j].0@ != k
}

/// A name is in the map exactly when an entry has it, and maps to its last entry's value.
pub proof fn lemma_named_map<'a, T>(e: Seq<(&'a str, T)>, k: Seq<char>)
    ensures
        named_map(e).contains_key(k) <==> exists|i: int| 0 <= i < e.len() && #[trigger] e[i].0@ == k,
        forall|i: int| is_last_index(e, k, i) ==> named_map(e).contains_key(k) && named_map(e)[k] == e[i].1,
    decreases e.len(),
{
    if e.len() > 0 {
        let d = e.drop_last();
        lemma_named_map(d, k);
        if named_map(e).contains_key(k) && e.last().0@ != k {
            let i = choose|i: int| 0 <= i < d.len() && #[trigger] d[i].0@ == k;
            assert(e[i] == d[i]);
        }
        if e.last().0@ == k {
            assert(e[e.len() - 1].0@ == k);
        }
        if exists|i: int| 0 <= i < e.len() && #[trigger] e[i].0@ == k {
            let i = choose|i: int| 0 <= i < e.len() && #[trigger] e[i].0@ == k;
            if i < e.len() - 1 {
                assert(d[i] == e[i]);
            }
        }
        assert forall|i: int| is_last_index(e, k, i) implies named_map(e).contains_key(k) && named_map(e)[k] == e[i].1 by {
            if i < e.len() - 1 {
                assert(e[e.len() - 1].0@ != k);
                assert(d[i] == e[i]);
                assert forall|j: int| i < j < d.len() implies #[trigger] d[j].0@ != k by {
                    assert(d[j] == e[j]);
                }
                assert(is_last_index(d, k, i));
            }
        }
    }
}

/// Changing the value of the last entry named `k` changes it in the map.
pub proof fn lemma_named_map_update<'a, T>(e: Seq<(&'a str, T)>, k: Seq<char>, i: int, v: T)
    requires
        is_last_index(e, k, i),
    ensures
        named_map(e.update(i, (e[i].0, v))) == named_map(e).insert(k, v),
    decreases e.len(),
{
    let f = e.update(i, (e[i].0, v));
    let d = e.drop_last();
    if i == e.len() - 1 {
        assert(f.drop_last() =~= d);
        assert(named_map(f) =~= named_map(e).insert(k, v));
    } else {
        assert(f.drop_last() =~= d.update(i, (d[i].0, v)));
        assert(d[i] == e[i]);
        assert forall|j: int| i < j < d.len() implies #[trigger] d[j].0@ != k by {
            assert(d[j] == e[j]);
        }
        lemma_named_map_update(d, k, i, v);
        assert(e[e.len() - 1].0@ != k);
        assert(named_map(f) =~= named_map(e).insert(k, v));
    }
}

/// The last entry named `name`, if there is one.
fn last_index<'a, T>(entries: &Vec<(&'a str, T)>, name: &str) -> (r: Option<usize>)
    ensures
        match r {
            Some(i) => is_last_index(entries@, name@, i as int),
            None => forall|j: int| 0 <= j < entries@.len() ==> #[trigger] entries@[j].0@ != name@,
        },
{
    let mut i: usize = entries.len();
    while i > 0
        invariant
            i <= entries@.len(),
            forall|j: int| i <= j < entries@.len() ==> #[trigger] entries@[j].0@ != name@,
        decreases i,
    {
        i = i - 1;
        if str_eq(entries[i].0, name) {
            return Some(i);
        }
    }
    None
}

/// Whether a value is named `name`.
pub fn named_contains<'a, T>(entries: &Vec<(&'a str, T)>, name: &str) -> (r: bool)
    ensures
        r == named_map(entries@).contains_key(name@),
{
    proof {
        lemma_named_map(entries@, name@);
    }
    last_index(entries, name).is_some()
}

/// The value named `name`.
pub fn named_get<'a, 'b, T>(entries: &'b Vec<(&'a str, T)>, name: &str) -> (r: Option<&'b T>)
    ensures
        match r {
            Some(v) => named_map(entries@).contains_key(name@) && *v == named_map(entries@)[name@],
            None => !named_map(entries@).contains_key(name@),
        },
{
    proof {
        lemma_named_map(entries@, name@);
    }
    match last_index(entries, name) {
        Some(i) => Some(&entries[i].1),
        None => None,
    }
}

/// The value named `name`, to change in place.
pub fn named_get_mut<'a, 'b, T>(entries: &'b mut Vec<(&'a str, T)>, name: &str) -> (r: Option<&'b mut T>)
    ensures
        match r {
            Some(v) => named_map(old(entries)@).contains_key(name@) && *v == named_map(old(entries)@)[name@]
                && named_map(final(entries)@) == named_map(old(entries)@).insert(name@, *final(v)),
            None => !named_map(old(entries)@).contains_key(name@) && *final(entries) == *old(entries),
        },
{
    proof {
        lemma_named_map(entries@, name@);
    }
    match last_index(entries, name) {
        Some(i) => {
            proof {
                let e = entries@;
                assert forall|v: T| named_map(#[trigger] e.update(i as int, (e[i as int].0, v))) == named_map(e).insert(name@, v) by {
                    lemma_named_map_update(e, name@, i as int, v);
                }
            }
            let entry = &mut entries[i];
            Some(&mut entry.1)
        },
        None => None,
    }
}

/// Names `value` with `name`; the value that had the name comes back.
pub fn named_insert<'a, T>(entries: &mut Vec<(&'a str, T)>, name: &'a str, value: T) -> (r: Option<T>)
    ensures
        named_map(final(entries)@) == named_map(old(entries)@).insert(name@, value),
        match r {
            Some(v) => named_map(old(entries)@).contains_key(name@) && v == named_map(old(entries)@)[name@],
            None => !named_map(old(entries)@).contains_key(name@),
        },
{
    proof {
        lemma_named_map(entries@, name@);
    }
    match last_index(entries, name) {
        Some(i) => {
            let ghost e = entries@;
            let key = entries[i].0;
            let (_, old_value) = entries.remove(i);
            entries.insert(i, (key, value));
            proof {
                assert(entries@ =~= e.update(i as int, (e[i as int].0, value)));
                lemma_named_map_update(e, name@, i as int, value);
            }
            Some(old_value)
        },
        None => {
            let ghost e = entries@;
            entries.push((name, value));
            proof {
                assert(entries@.drop_last() =~= e);
            }
            None
        },
    }
}

} // verus!
