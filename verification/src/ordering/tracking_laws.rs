//! What read tracking records, for every inlined table.
use vstd::prelude::*;

use super::holes::increasing;
use super::tracking::{
    empty_read, key_pairs, read_all, reads_of, record_readers, sorted_set, sourced, spec_tracking, with_read,
    with_reader, ReadView, TrackedView,
};
use crate::inliner::coll::keyed;
use crate::inliner::expr::{children, inlined_hash};
use crate::inliner::InlinedExpression;

verus! {

/// Recording a reader, or something read, twice records it once; the
/// other list stays as it was.
pub proof fn lemma_record_once(r: ReadView, x: u64)
    ensures
        with_reader(with_reader(r, x), x) == with_reader(r, x),
        with_reader(r, x).sinks.contains(x),
        with_reader(r, x).sources == r.sources,
        with_read(with_read(r, x), x) == with_read(r, x),
        with_read(r, x).sources.contains(x),
        with_read(r, x).sinks == r.sinks,
{
    if !r.sinks.contains(x) {
        assert(r.sinks.push(x)[r.sinks.len() as int] == x);
    }
    if !r.sources.contains(x) {
        assert(r.sources.push(x)[r.sources.len() as int] == x);
    }
}

/// A finite non-empty set of identifiers has a greatest element.
proof fn lemma_max(s: Set<u64>) -> (m: u64)
    requires
        s.finite(),
        s.len() > 0,
    ensures
        s.contains(m),
        forall|x: u64| s.contains(x) ==> x <= m,
    decreases s.len(),
{
    let a = s.choose();
    if s.len() == 1 {
        assert forall|x: u64| s.contains(x) implies x <= a by {
            if x != a {
                assert(s.remove(a).contains(x));
                assert(s.remove(a).len() == 0);
            }
        }
        a
    } else {
        let m2 = lemma_max(s.remove(a));
        if a > m2 {
            a
        } else {
            m2
        }
    }
}

/// The identifiers of a finite set can be put in increasing order.
pub proof fn lemma_sorted_set(s: Set<u64>)
    requires
        s.finite(),
    ensures
        increasing(sorted_set(s)),
        sorted_set(s).to_set() == s,
    decreases s.len(),
{
    if s.len() == 0 {
        let q = Seq::<u64>::empty();
        assert(q.to_set() =~= s);
        assert(increasing(q));
    } else {
        let m = lemma_max(s);
        lemma_sorted_set(s.remove(m));
        let p = sorted_set(s.remove(m));
        let q = p.push(m);
        assert forall|i: int, j: int| 0 <= i < j < q.len() implies q[i] < q[j] by {
            if j == q.len() - 1 {
                assert(p.to_set().contains(p[i]));
            }
        }
        assert(q.to_set() =~= s) by {
            assert forall|x: u64| q.to_set().contains(x) <==> s.contains(x) by {
                if x == m {
                    assert(q[p.len() as int] == m);
                }
                if s.contains(x) && x != m {
                    assert(s.remove(m).contains(x));
                    assert(p.to_set().contains(x));
                    let i = choose|i: int| 0 <= i < p.len() && p[i] == x;
                    assert(q[i] == x);
                }
                if q.to_set().contains(x) {
                    let i = choose|i: int| 0 <= i < q.len() && q[i] == x;
                    if i < p.len() {
                        assert(p[i] == x);
                        assert(p.to_set().contains(x));
                        assert(s.remove(m).contains(x));
                    }
                }
            }
        }
        assert(increasing(q) && q.to_set() == s);
    }
}

/// Recording readers changes neither the keys nor anything but the
/// readers.
proof fn lemma_record_readers_frame(m: Map<u64, TrackedView>, ps: Seq<(u64, u64)>, x: u64)
    ensures
        record_readers(m, ps).dom() == m.dom(),
        m.contains_key(x) ==> record_readers(m, ps)[x].hash == m[x].hash && record_readers(m, ps)[x].order
            == m[x].order && record_readers(m, ps)[x].read.sources == m[x].read.sources,
    decreases ps.len(),
{
    if ps.len() > 0 {
        lemma_record_readers_frame(m, ps.drop_last(), x);
        let m1 = record_readers(m, ps.drop_last());
        let (r, y) = ps.last();
        if m1.contains_key(y) {
            assert(m1.insert(y, TrackedView { read: super::tracking::with_reader(m1[y].read, r), ..m1[y] }).dom()
                =~= m1.dom());
        }
    }
}

/// A node records as readers those it had and those paired with it.
proof fn lemma_record_readers_sinks(m: Map<u64, TrackedView>, ps: Seq<(u64, u64)>, x: u64, s: u64)
    requires
        m.contains_key(x),
    ensures
        record_readers(m, ps)[x].read.sinks.contains(s) <==> (m[x].read.sinks.contains(s) || ps.contains((s, x))),
    decreases ps.len(),
{
    if ps.len() > 0 {
        let q = ps.drop_last();
        lemma_record_readers_sinks(m, q, x, s);
        lemma_record_readers_frame(m, q, x);
        let (r, y) = ps.last();
        assert(ps =~= q.push((r, y)));
        assert(ps.contains((s, x)) <==> (q.contains((s, x)) || (r, y) == (s, x))) by {
            if ps.contains((s, x)) {
                let i = choose|i: int| 0 <= i < ps.len() && ps[i] == (s, x);
                if i < q.len() {
                    assert(q[i] == (s, x));
                }
            }
            if q.contains((s, x)) {
                let i = choose|i: int| 0 <= i < q.len() && q[i] == (s, x);
                assert(ps[i] == (s, x));
            }
            if (r, y) == (s, x) {
                assert(ps[ps.len() - 1] == (s, x));
            }
        }
        let m1 = record_readers(m, q);
        if y == x {
            let sk = m1[x].read.sinks;
            if !sk.contains(r) {
                assert(sk.push(r).contains(s) <==> (sk.contains(s) || s == r)) by {
                    if sk.push(r).contains(s) {
                        let i = choose|i: int| 0 <= i < sk.push(r).len() && sk.push(r)[i] == s;
                        if i < sk.len() {
                            assert(sk[i] == s);
                        }
                    }
                    if sk.contains(s) {
                        let i = choose|i: int| 0 <= i < sk.len() && sk[i] == s;
                        assert(sk.push(r)[i] == s);
                    }
                    if s == r {
                        assert(sk.push(r)[sk.len() as int] == s);
                    }
                }
            }
        }
    }
}

/// The pairs of a table hold the pairs of reader and argument of the
/// expressions under the keys, and no other.
proof fn lemma_key_pairs_contains(exprs: Map<u64, InlinedExpression>, ks: Seq<u64>, h: u64, a: u64)
    ensures
        key_pairs(exprs, ks).contains((h, a)) <==> exists|j: int|
            0 <= j < ks.len() && h == inlined_hash(exprs[ks[j]]) && #[trigger] children(exprs[ks[j]]).contains(a),
    decreases ks.len(),
{
    if ks.len() > 0 {
        let q = ks.drop_last();
        lemma_key_pairs_contains(exprs, q, h, a);
        let e = exprs[ks.last()];
        let left = key_pairs(exprs, q);
        let right = reads_of(inlined_hash(e), children(e));
        assert(key_pairs(exprs, ks) == left + right);
        assert(right.contains((h, a)) <==> (h == inlined_hash(e) && children(e).contains(a))) by {
            if right.contains((h, a)) {
                let i = choose|i: int| 0 <= i < right.len() && right[i] == (h, a);
                assert(children(e)[i] == a);
            }
            if h == inlined_hash(e) && children(e).contains(a) {
                let i = choose|i: int| 0 <= i < children(e).len() && children(e)[i] == a;
                assert(right[i] == (h, a));
            }
        }
        assert((left + right).contains((h, a)) <==> (left.contains((h, a)) || right.contains((h, a)))) by {
            if (left + right).contains((h, a)) {
                let i = choose|i: int| 0 <= i < (left + right).len() && (left + right)[i] == (h, a);
                if i < left.len() {
                    assert(left[i] == (h, a));
                } else {
                    assert(right[i - left.len()] == (h, a));
                }
            }
            if left.contains((h, a)) {
                let i = choose|i: int| 0 <= i < left.len() && left[i] == (h, a);
                assert((left + right)[i] == (h, a));
            }
            if right.contains((h, a)) {
                let i = choose|i: int| 0 <= i < right.len() && right[i] == (h, a);
                assert((left + right)[left.len() + i] == (h, a));
            }
        }
        if exists|j: int|
            0 <= j < ks.len() && h == inlined_hash(exprs[ks[j]]) && #[trigger] children(exprs[ks[j]]).contains(a) {
            let j = choose|j: int|
                0 <= j < ks.len() && h == inlined_hash(exprs[ks[j]]) && #[trigger] children(exprs[ks[j]]).contains(a);
            if j < q.len() {
                assert(q[j] == ks[j]);
            }
        }
        if exists|j: int|
            0 <= j < q.len() && h == inlined_hash(exprs[q[j]]) && #[trigger] children(exprs[q[j]]).contains(a) {
            let j = choose|j: int|
                0 <= j < q.len() && h == inlined_hash(exprs[q[j]]) && #[trigger] children(exprs[q[j]]).contains(a);
            assert(ks[j] == q[j]);
        }
        if h == inlined_hash(e) && children(e).contains(a) {
            assert(ks[ks.len() - 1] == ks.last());
        }
    }
}

/// Recording arguments as read records exactly those arguments, and no
/// reader.
proof fn lemma_read_all(args: Seq<u64>, x: u64)
    ensures
        read_all(empty_read(), args).sources.contains(x) <==> args.contains(x),
        read_all(empty_read(), args).sinks.len() == 0,
    decreases args.len(),
{
    if args.len() > 0 {
        let q = args.drop_last();
        lemma_read_all(q, x);
        let r = read_all(empty_read(), q);
        let a = args.last();
        assert(args.contains(x) <==> (q.contains(x) || x == a)) by {
            if args.contains(x) {
                let i = choose|i: int| 0 <= i < args.len() && args[i] == x;
                if i < q.len() {
                    assert(q[i] == x);
                }
            }
            if q.contains(x) {
                let i = choose|i: int| 0 <= i < q.len() && q[i] == x;
                assert(args[i] == x);
            }
            if x == a {
                assert(args[args.len() - 1] == x);
            }
        }
        if !r.sources.contains(a) {
            let sr = r.sources;
            assert(sr.push(a).contains(x) <==> (sr.contains(x) || x == a)) by {
                if sr.push(a).contains(x) {
                    let i = choose|i: int| 0 <= i < sr.push(a).len() && sr.push(a)[i] == x;
                    if i < sr.len() {
                        assert(sr[i] == x);
                    }
                }
                if sr.contains(x) {
                    let i = choose|i: int| 0 <= i < sr.len() && sr[i] == x;
                    assert(sr.push(a)[i] == x);
                }
                if x == a {
                    assert(sr.push(a)[sr.len() as int] == x);
                }
            }
        }
    }
}

/// Once an inlined table is tracked, the readers of every expression are
/// exactly the expressions that take it as an argument, and what every
/// expression reads are exactly its arguments; nothing else changes: every
/// node keeps its hash and ordering number zero.
pub proof fn lemma_tracking_reads(exprs: Map<u64, InlinedExpression>, x: u64, s: u64)
    requires
        exprs.dom().finite(),
        keyed(exprs),
        exprs.contains_key(x),
    ensures
        spec_tracking(exprs).dom() == exprs.dom(),
        spec_tracking(exprs)[x].hash == x,
        spec_tracking(exprs)[x].order == 0,
        spec_tracking(exprs)[x].read.sinks.contains(s) <==> (exprs.contains_key(s) && children(exprs[s]).contains(x)),
        spec_tracking(exprs)[x].read.sources.contains(s) <==> children(exprs[x]).contains(s),
{
    lemma_sorted_set(exprs.dom());
    let ks = sorted_set(exprs.dom());
    let ps = key_pairs(exprs, ks);
    let m0 = sourced(exprs);
    assert(m0.dom() =~= exprs.dom());
    lemma_record_readers_frame(m0, ps, x);
    lemma_record_readers_sinks(m0, ps, x, s);
    lemma_read_all(children(exprs[x]), s);
    lemma_key_pairs_contains(exprs, ks, s, x);
    if ps.contains((s, x)) {
        let j = choose|j: int|
            0 <= j < ks.len() && s == inlined_hash(exprs[ks[j]]) && #[trigger] children(exprs[ks[j]]).contains(x);
        assert(ks.to_set().contains(ks[j]));
        assert(exprs.contains_key(ks[j]));
    }
    if exprs.contains_key(s) && children(exprs[s]).contains(x) {
        assert(ks.to_set().contains(s));
        let j = choose|j: int| 0 <= j < ks.len() && ks[j] == s;
        assert(children(exprs[ks[j]]).contains(x));
    }
}

} // verus!
