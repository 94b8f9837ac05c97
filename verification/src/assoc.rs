//! Association lists: sequences of key/value pairs in which a later pair
//! shadows an earlier one with the same key.
use vstd::prelude::*;

use crate::cfgbuilder::identifier::Identifier;

verus! {

/// The value bound to `k`: that of the last pair with key `k`.
pub open spec fn assoc_get<K, V>(s: Seq<(K, V)>, k: K) -> Option<V>
    decreases s.len(),
{
    if s.len() == 0 {
        None
    } else if s.last().0 == k {
        Some(s.last().1)
    } else {
        assoc_get(s.drop_last(), k)
    }
}

/// A pair with key `k` after which no pair has that key gives the value
/// bound to `k`; with no pair of that key, nothing is bound.
pub proof fn lemma_assoc_get<K, V>(s: Seq<(K, V)>, k: K, i: int)
    requires
        0 <= i <= s.len(),
        i < s.len() ==> s[i].0 == k,
        i == s.len() ==> forall|j: int| 0 <= j < s.len() ==> s[j].0 != k,
        forall|j: int| i < j < s.len() ==> s[j].0 != k,
    ensures
        assoc_get(s, k) == if i < s.len() {
            Some(s[i].1)
        } else {
            None::<V>
        },
    decreases s.len(),
{
    if s.len() > 0 && i != s.len() - 1 {
        let t = s.drop_last();
        if i < s.len() {
            lemma_assoc_get(t, k, i);
        } else {
            lemma_assoc_get(t, k, t.len() as int);
        }
    }
}

/// Binding a key after the others shadows what it was bound to.
pub proof fn lemma_assoc_push<K, V>(s: Seq<(K, V)>, k: K, v: V, q: K)
    ensures
        assoc_get(s.push((k, v)), q) == if q == k {
            Some(v)
        } else {
            assoc_get(s, q)
        },
{
    assert(s.push((k, v)).drop_last() =~= s);
}

/// The position of the last pair whose key is `k`.
pub fn find_key<T>(s: &Vec<(Identifier, T)>, k: &Identifier) -> (r: Option<usize>)
    ensures
        match r {
            Some(i) => i < s@.len() && s@[i as int].0 == *k && forall|j: int|
                i < j < s@.len() ==> s@[j].0 != *k,
            None => forall|j: int| 0 <= j < s@.len() ==> s@[j].0 != *k,
        },
{
    let mut i: usize = s.len();
    while i > 0
        invariant
            i <= s@.len(),
            forall|j: int| i <= j < s@.len() ==> s@[j].0 != *k,
        decreases i,
    {
        if s[i - 1].0 == *k {
            return Some(i - 1);
        }
        i = i - 1;
    }
    None
}

} // verus!
