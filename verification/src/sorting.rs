//! In-place sorting of integers and booleans, proved to order the
//! elements and keep each of them.
use vstd::prelude::*;

verus! {

broadcast use vstd::seq_lib::group_to_multiset_ensures, vstd::multiset::group_multiset_properties;

/// The integers are in non-decreasing order.
pub open spec fn sorted_ints(s: Seq<i32>) -> bool {
    forall|i: int, j: int| 0 <= i <= j < s.len() ==> s[i] <= s[j]
}

/// The booleans are in order, every `false` before every `true`.
pub open spec fn sorted_bools(s: Seq<bool>) -> bool {
    forall|i: int, j: int| 0 <= i <= j < s.len() ==> (s[i] ==> s[j])
}

/// Exchanging two elements keeps the multiset of elements.
proof fn lemma_swap_multiset<A>(s: Seq<A>, i: int, j: int)
    requires
        0 <= i < s.len(),
        0 <= j < s.len(),
    ensures
        s.update(i, s[j]).update(j, s[i]).to_multiset() == s.to_multiset(),
{
    broadcast use vstd::seq_lib::to_multiset_update;
    let t = s.update(i, s[j]);
    assert(t.to_multiset() == s.to_multiset().insert(s[j]).remove(s[i]));
    assert(t.update(j, s[i]).to_multiset() == t.to_multiset().insert(s[i]).remove(t[j]));
    if i == j {
        assert(t.update(j, s[i]) =~= s);
    } else {
        assert(t[j] == s[j]);
        assert(t.update(j, s[i]).to_multiset() =~= s.to_multiset());
    }
}

/// Sorts integers in non-decreasing order.
pub fn sort_ints(v: &mut Vec<i32>)
    ensures
        sorted_ints(final(v)@),
        final(v)@.to_multiset() == old(v)@.to_multiset(),
{
    let n = v.len();
    let mut i: usize = 0;
    while i < n
        invariant
            n == v@.len(),
            i <= n,
            v@.to_multiset() == old(v)@.to_multiset(),
            forall|a: int, b: int| 0 <= a <= b < i ==> v@[a] <= v@[b],
            forall|a: int, b: int| 0 <= a < i <= b < n ==> v@[a] <= v@[b],
        decreases n - i,
    {
        let mut m: usize = i;
        let mut j: usize = i + 1;
        while j < n
            invariant
                n == v@.len(),
                i < n,
                i <= m < n,
                i < j <= n,
                forall|b: int| i <= b < j ==> v@[m as int] <= v@[b],
            decreases n - j,
        {
            if v[j] < v[m] {
                m = j;
            }
            j = j + 1;
        }
        let a = v[i];
        let b = v[m];
        proof {
            lemma_swap_multiset(v@, i as int, m as int);
        }
        v.set(i, b);
        v.set(m, a);
        i = i + 1;
    }
}

/// Sorts booleans, every `false` before every `true`.
pub fn sort_bools(v: &mut Vec<bool>)
    ensures
        sorted_bools(final(v)@),
        final(v)@.to_multiset() == old(v)@.to_multiset(),
{
    let n = v.len();
    let mut i: usize = 0;
    while i < n
        invariant
            n == v@.len(),
            i <= n,
            v@.to_multiset() == old(v)@.to_multiset(),
            forall|a: int, b: int| 0 <= a <= b < i ==> (v@[a] ==> v@[b]),
            forall|a: int, b: int| 0 <= a < i <= b < n ==> (v@[a] ==> v@[b]),
        decreases n - i,
    {
        let mut m: usize = i;
        let mut j: usize = i + 1;
        while j < n
            invariant
                n == v@.len(),
                i < n,
                i <= m < n,
                i < j <= n,
                forall|b: int| i <= b < j ==> (v@[m as int] ==> v@[b]),
            decreases n - j,
        {
            if !v[j] && v[m] {
                m = j;
            }
            j = j + 1;
        }
        let a = v[i];
        let b = v[m];
        proof {
            lemma_swap_multiset(v@, i as int, m as int);
        }
        v.set(i, b);
        v.set(m, a);
        i = i + 1;
    }
}

/// A vector holding the integers of a slice.
pub fn ints_of(s: &[i32]) -> (r: Vec<i32>)
    ensures
        r@ == s@,
{
    let mut v: Vec<i32> = Vec::new();
    for i in 0..s.len()
        invariant
            v@ == s@.take(i as int),
    {
        v.push(s[i]);
        assert(v@ =~= s@.take(i + 1));
    }
    assert(v@ =~= s@);
    v
}

/// A vector holding the booleans of a slice.
pub fn bools_of(s: &[bool]) -> (r: Vec<bool>)
    ensures
        r@ == s@,
{
    let mut v: Vec<bool> = Vec::new();
    for i in 0..s.len()
        invariant
            v@ == s@.take(i as int),
    {
        v.push(s[i]);
        assert(v@ =~= s@.take(i + 1));
    }
    assert(v@ =~= s@);
    v
}

} // verus!
