//! Maps from strings held as lists of entries, a later entry of a key replacing an
//! earlier one.

use crate::text::str_eq;
use vstd::prelude::*;

verus! {

/// The map a list of entries stands for: each key with the value of its last entry.
pub open spec fn assoc_map<V>(e: Seq<(String, V)>) -> Map<Seq<char>, V>
    decreases e.len(),
{
    if e.len() == 0 {
        Map::empty()
    } else {
        assoc_map(e.drop_last()).insert(e.last().0@, e.last().1)
    }
}

pub proof fn lemma_assoc_last<V>(e: Seq<(String, V)>, i: int)
    requires
        0 <= i < e.len(),
        forall|j: int| i < j < e.len() ==> e[j].0@ != e[i].0@,
    ensures
        assoc_map(e).contains_key(e[i].0@),
        assoc_map(e)[e[i].0@] == e[i].1,
    decreases e.len(),
{
    if i < e.len() - 1 {
        lemma_assoc_last(e.drop_last(), i);
    }
}

pub proof fn lemma_assoc_absent<V>(e: Seq<(String, V)>, k: Seq<char>)
    requires
        forall|j: int| 0 <= j < e.len() ==> e[j].0@ != k,
    ensures
        !assoc_map(e).contains_key(k),
    decreases e.len(),
{
    if e.len() > 0 {
        lemma_assoc_absent(e.drop_last(), k);
    }
}

pub proof fn lemma_assoc_update<V>(e: Seq<(String, V)>, i: int, kv: (String, V))
    requires
        0 <= i < e.len(),
        e[i].0@ == kv.0@,
        forall|j: int| i < j < e.len() ==> e[j].0@ != kv.0@,
    ensures
        assoc_map(e.update(i, kv)) == assoc_map(e).insert(kv.0@, kv.1),
    decreases e.len(),
{
    let u = e.update(i, kv);
    if i == e.len() - 1 {
        assert(u.drop_last() =~= e.drop_last());
        assert(assoc_map(u) =~= assoc_map(e).insert(kv.0@, kv.1));
    } else {
        assert(u.drop_last() =~= e.drop_last().update(i, kv));
        lemma_assoc_update(e.drop_last(), i, kv);
        assert(assoc_map(u) =~= assoc_map(e).insert(kv.0@, kv.1));
    }
}

pub proof fn lemma_assoc_push<V>(e: Seq<(String, V)>, kv: (String, V))
    ensures
        assoc_map(e.push(kv)) == assoc_map(e).insert(kv.0@, kv.1),
{
    assert(e.push(kv).drop_last() =~= e);
}

/// The position of the last entry of `key`.
pub fn last_position<V>(e: &Vec<(String, V)>, key: &str) -> (r: Option<usize>)
    ensures
        match r {
            Some(i) => i < e.len() && e@[i as int].0@ == key@ && forall|j: int|
                i < j < e.len() ==> e@[j].0@ != key@,
            None => forall|j: int| 0 <= j < e.len() ==> e@[j].0@ != key@,
        },
{
    let mut i: usize = e.len();
    while i > 0
        invariant
            i <= e.len(),
            forall|j: int| i <= j < e.len() ==> e@[j].0@ != key@,
        decreases i,
    {
        i = i - 1;
        if str_eq(e[i].0.as_str(), key) {
            return Some(i);
        }
    }
    None
}

/// Sets the value of `key`: in place of its last entry, or as a new entry.
pub fn assoc_insert<V>(e: &mut Vec<(String, V)>, key: &str, value: V)
    ensures
        assoc_map(final(e)@) == assoc_map(old(e)@).insert(key@, value),
{
    let k = key.to_string();
    match last_position(e, key) {
        Some(i) => {
            proof {
                lemma_assoc_update(e@, i as int, (k, value));
            }
            e.set(i, (k, value));
        },
        None => {
            proof {
                lemma_assoc_push(e@, (k, value));
            }
            e.push((k, value));
        },
    }
}

} // verus!
