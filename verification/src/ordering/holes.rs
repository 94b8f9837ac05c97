//! Peephole optimizations of the dependency graph, and the loop that
//! applies them until none applies.
use itertools::Itertools;
use vstd::prelude::*;

use crate::parser_output::TypeData;

use super::coll::{is_first_free, OrderedCollection, OrderedView};
use super::expr::{ConstantValue, NodeView, Op, OrderedExpression, Shape, StdKind, StdLibraryFunc};
use super::graphs::{apply_mods, AddSink, Inserter, ModView, Modifications, Operation, RemoveSink, Remover, SwapSource};
use super::matcher::{Match, MatchTrait};
use super::ord::{with_sink, OrdTrait, OrdType, OrdView};

verus! {

/// The rewrites for the sinks of `root`, which now read the new constant
/// `nc`: each sink's source `root` becomes `nc`, and `nc` records the sink.
pub open spec fn interior_sinks(sinks: Seq<Match>, root: Match, nc: OrdView, mods: Seq<ModView>) -> (OrdView, Seq<ModView>)
    decreases sinks.len(),
{
    if sinks.len() == 0 {
        (nc, mods)
    } else {
        let (c1, m1) = interior_sinks(sinks.drop_last(), root, nc, mods);
        let s = sinks.last();
        (with_sink(c1, s), m1.push(ModView::SwapSource(s, root, c1.id)))
    }
}

/// Replacing `root`, an operation on the two nodes `x` and `y`, by a new
/// constant with identifier `new_id` of type `kind`: the constant's
/// ordering data, and the rewrites that redirect `root`'s readers to it and
/// detach `root` from its operands, removing an operand that nothing else
/// reads.
pub open spec fn spec_interior(root: OrdView, new_id: u64, kind: TypeData, x: OrdView, y: OrdView) -> (OrdView, Seq<ModView>) {
    let nc0 = OrdView { id: Match { kind, id: new_id }, sources: Seq::empty(), sinks: Seq::empty() };
    let (nc, m1) = interior_sinks(root.sinks, root.id, nc0, Seq::empty());
    let m2 = m1.push(ModView::RemoveSink(x.id, root.id));
    let m3 = if x.sinks.len() == 1 {
        m2.push(ModView::Remove(x.id))
    } else {
        m2
    };
    let m4 = m3.push(ModView::RemoveSink(y.id, root.id));
    let m5 = if y.sinks.len() == 1 {
        m4.push(ModView::Remove(y.id))
    } else {
        m4
    };
    (nc, m5)
}

/// Handles the boilerplate of propagating constants: the new constant's
/// ordering data, and the rewrites of `spec_interior`.
pub fn interior(root: &OrdType, new_id: u64, kind: TypeData, x_args: &OrdType, y_args: &OrdType) -> (r: (OrdType, Modifications))
    ensures
        (r.0@, r.1@) == spec_interior(root@, new_id, kind, x_args@, y_args@),
{
    let root_m = root.get_matcher();
    let x_args_m = x_args.get_matcher();
    let y_args_m = y_args.get_matcher();
    let mut mods = Modifications::new();
    let mut new_constant = OrdType::new(Match::new(new_id, kind), Vec::new());
    let ghost nc0 = new_constant@;
    let sinks = root.get_sinks();
    let ghost ss = root@.sinks;
    assert(ss.take(0) =~= Seq::<Match>::empty());
    let n = sinks.len();
    for i in 0..n
        invariant
            n == ss.len(),
            sinks@ == ss,
            ss == root@.sinks,
            root_m == root@.id,
            (new_constant@, mods@) == interior_sinks(ss.take(i as int), root_m, nc0, Seq::empty()),
            new_constant@.id == nc0.id,
    {
        let sink = sinks[i];
        proof {
            assert(ss.take(i + 1).drop_last() =~= ss.take(i as int));
            assert(ss.take(i + 1).last() == sink);
        }
        mods.push(Operation::SwapSource(SwapSource::new(sink, root_m, new_constant.get_matcher())));
        new_constant.add_sink(&sink);
    }
    assert(ss.take(n as int) =~= ss);
    mods.push(Operation::RemoveSink(RemoveSink::new(x_args_m, root_m)));
    if x_args.get_sinks().len() == 1 {
        mods.push(Operation::Remove(Remover::new(x_args_m)));
    }
    mods.push(Operation::RemoveSink(RemoveSink::new(y_args_m, root_m)));
    if y_args.get_sinks().len() == 1 {
        mods.push(Operation::Remove(Remover::new(y_args_m)));
    }
    (new_constant, mods)
}

/// The node of shape `And` and type `int`, with two constant operands of
/// one type, folds into a constant: `&` of the operands, under the smallest
/// free identifier.
pub open spec fn spec_and_inline(expr: u64, c: OrderedView) -> Option<Seq<ModView>> {
    if !c.nodes.contains_key(expr) || c.nodes.len() >= 0xffff_ffff_ffff_ffff {
        None
    } else {
        let n = c.nodes[expr];
        if n.shape != Shape::Op(crate::parser_output::Operation::And) || n.ord.id.kind != TypeData::Int
            || n.ord.sources.len() < 2 || !c.nodes.contains_key(n.ord.sources[0].id) || !c.nodes.contains_key(
            n.ord.sources[1].id,
        ) {
            None
        } else {
            let x = c.nodes[n.ord.sources[0].id];
            let y = c.nodes[n.ord.sources[1].id];
            let new_id = choose|f: u64| is_first_free(c.nodes, f);
            match (x.shape, y.shape) {
                (Shape::Int(a), Shape::Int(b)) => {
                    let (nc, ms) = spec_interior(n.ord, new_id, TypeData::Int, x.ord, y.ord);
                    Some(ms.push(ModView::Insert(NodeView { shape: Shape::Int(a & b), ord: nc })))
                },
                (Shape::Bool(a), Shape::Bool(b)) => {
                    let (nc, ms) = spec_interior(n.ord, new_id, TypeData::Bool, x.ord, y.ord);
                    Some(ms.push(ModView::Insert(NodeView { shape: Shape::Bool(a && b), ord: nc })))
                },
                _ => None,
            }
        }
    }
}

/// Folds an `&` of two constants, where `expr` is such a node of type
/// `int`, into the rewrites that replace it by a constant.
pub fn and_inline(expr: u64, coll: &OrderedCollection) -> (r: Option<Modifications>)
    ensures
        match spec_and_inline(expr, coll@) {
            Some(ms) => r matches Some(m) && m@ == ms,
            None => r is None,
        },
{
    let and_op = match coll.get_expr(expr) {
        Option::Some(OrderedExpression::Op(Op::And(and_op))) => {
            if and_op.get_kind() != TypeData::Int {
                return None;
            }
            and_op
        },
        _ => return None,
    };
    if coll.len() as u64 >= 0xffff_ffff_ffff_ffffu64 {
        return None;
    }
    let none: Vec<u64> = Vec::new();
    let new_id = coll.next_free_id(&none);
    proof {
        assert forall|j: u64| j < new_id implies coll@.nodes.contains_key(j) by {
            assert(!none@.contains(j));
        }
        assert(is_first_free(coll@.nodes, new_id));
        let f = choose|f: u64| is_first_free(coll@.nodes, f);
        super::coll::lemma_first_free_unique(coll@.nodes, f, new_id);
    }
    let sources = and_op.get_sources();
    if sources.len() < 2 {
        return None;
    }
    match (coll.get_expr(sources[0].get_id()), coll.get_expr(sources[1].get_id())) {
        (
            Option::Some(OrderedExpression::Constant(ConstantValue::Int(x, x_args))),
            Option::Some(OrderedExpression::Constant(ConstantValue::Int(y, y_args))),
        ) => {
            let (new_constant, mut mods) = interior(and_op, new_id, TypeData::Int, x_args, y_args);
            mods.push(Operation::Insert(Inserter::new(OrderedExpression::Constant(ConstantValue::Int(*x & *y, new_constant)))));
            Some(mods)
        },
        (
            Option::Some(OrderedExpression::Constant(ConstantValue::Bool(x, x_args))),
            Option::Some(OrderedExpression::Constant(ConstantValue::Bool(y, y_args))),
        ) => {
            let (new_constant, mut mods) = interior(and_op, new_id, TypeData::Bool, x_args, y_args);
            mods.push(Operation::Insert(Inserter::new(OrderedExpression::Constant(ConstantValue::Bool(*x && *y, new_constant)))));
            Some(mods)
        },
        _ => None,
    }
}

/// The rewrites that make every reader of the length node `len_m` read the
/// constant `count_m` instead.
pub open spec fn len_sinks(sinks: Seq<Match>, len_m: Match, count_m: Match, mods: Seq<ModView>) -> Seq<ModView>
    decreases sinks.len(),
{
    if sinks.len() == 0 {
        mods
    } else {
        len_sinks(sinks.drop_last(), len_m, count_m, mods).push(ModView::SwapSource(sinks.last(), len_m, count_m)).push(
            ModView::AddSink(count_m, sinks.last()),
        )
    }
}

/// Whether a node rolls dice.
pub open spec fn is_roll(s: Shape) -> bool {
    s == Shape::StdLib(StdKind::D6) || s == Shape::StdLib(StdKind::D3)
}

/// `len(roll_d6(N))` or `len(roll_d3(N))`, with `N` a constant, reduces to
/// `N`: the node with the default identifier (the final node, which reads
/// the program's result without being recorded as a reader) and every
/// reader of the length read the constant, the length goes, and so does the
/// roll where the length was its only reader.
pub open spec fn spec_len_dice(expr: u64, c: OrderedView) -> Option<Seq<ModView>> {
    if !c.nodes.contains_key(expr) {
        None
    } else {
        let n = c.nodes[expr];
        if n.shape != Shape::StdLib(StdKind::Len) || n.ord.sources.len() < 1 || !c.nodes.contains_key(
            n.ord.sources[0].id,
        ) {
            None
        } else {
            let roll = c.nodes[n.ord.sources[0].id];
            if !is_roll(roll.shape) || roll.ord.sources.len() < 1 || !c.nodes.contains_key(roll.ord.sources[0].id) {
                None
            } else {
                let count = c.nodes[roll.ord.sources[0].id];
                if !(count.shape is Int) {
                    None
                } else {
                    let m1 = len_sinks(
                        n.ord.sinks,
                        n.ord.id,
                        count.ord.id,
                        seq![ModView::SwapSource(Match { kind: TypeData::Bool, id: 0 }, n.ord.id, count.ord.id)],
                    );
                    let m2 = m1.push(ModView::Remove(n.ord.id)).push(ModView::RemoveSink(roll.ord.id, n.ord.id));
                    Some(
                        if roll.ord.sinks.len() == 1 {
                            m2.push(ModView::Remove(roll.ord.id))
                        } else {
                            m2
                        },
                    )
                }
            }
        }
    }
}

/// Reduces `len(roll_d6(N))` or `len(roll_d3(N))` to `N`, where `expr` is
/// such a length node.
pub fn len_dice(expr: u64, coll: &OrderedCollection) -> (r: Option<Modifications>)
    ensures
        match spec_len_dice(expr, coll@) {
            Some(ms) => r matches Some(m) && m@ == ms,
            None => r is None,
        },
{
    let len_op = match coll.get_expr(expr) {
        Option::Some(OrderedExpression::StdLib(StdLibraryFunc::Len(len_op))) => len_op,
        _ => return None,
    };
    let len_sources = len_op.get_sources();
    if len_sources.len() < 1 {
        return None;
    }
    let roll_op = match coll.get_expr(len_sources[0].get_id()) {
        Option::Some(OrderedExpression::StdLib(StdLibraryFunc::D6(roll))) => roll,
        Option::Some(OrderedExpression::StdLib(StdLibraryFunc::D3(roll))) => roll,
        _ => return None,
    };
    let roll_sources = roll_op.get_sources();
    if roll_sources.len() < 1 {
        return None;
    }
    let count_args = match coll.get_expr(roll_sources[0].get_id()) {
        Option::Some(OrderedExpression::Constant(ConstantValue::Int(_, count_args))) => count_args,
        _ => return None,
    };
    let len_m = len_op.get_matcher();
    let roll_m = roll_op.get_matcher();
    let count_m = count_args.get_matcher();
    let mut mods = Modifications::new();
    mods.push(Operation::SwapSource(SwapSource::new(Match::default(), len_m, count_m)));
    let ghost m0 = mods@;
    assert(m0 =~= seq![ModView::SwapSource(Match { kind: TypeData::Bool, id: 0 }, len_m, count_m)]);
    let sinks = len_op.get_sinks();
    let ghost ss = sinks@;
    assert(ss.take(0) =~= Seq::<Match>::empty());
    let n = sinks.len();
    for i in 0..n
        invariant
            n == ss.len(),
            sinks@ == ss,
            mods@ == len_sinks(ss.take(i as int), len_m, count_m, m0),
    {
        let sink = sinks[i];
        proof {
            assert(ss.take(i + 1).drop_last() =~= ss.take(i as int));
            assert(ss.take(i + 1).last() == sink);
        }
        mods.push(Operation::SwapSource(SwapSource::new(sink, len_m, count_m)));
        mods.push(Operation::AddSink(AddSink::new(count_m, sink)));
    }
    assert(ss.take(n as int) =~= ss);
    mods.push(Operation::Remove(Remover::new(len_m)));
    mods.push(Operation::RemoveSink(RemoveSink::new(roll_m, len_m)));
    if roll_op.get_sinks().len() == 1 {
        mods.push(Operation::Remove(Remover::new(roll_m)));
    }
    Some(mods)
}

/// How many rounds of rewriting the optimizer runs at most: as many as a
/// `u64` counts.
pub const OPTIMIZE_ROUNDS: u64 = 0xffff_ffff_ffff_ffff;

/// The identifiers are in strictly increasing order.
pub open spec fn increasing(s: Seq<u64>) -> bool {
    forall|i: int, j: int| 0 <= i < j < s.len() ==> s[i] < s[j]
}

/// The keys of a table, in increasing order.
pub open spec fn sorted_dom(c: Map<u64, NodeView>) -> Seq<u64> {
    choose|s: Seq<u64>| increasing(s) && s.to_set() == c.dom()
}

/// Two increasing sequences of the same elements are equal.
pub proof fn lemma_increasing_unique(a: Seq<u64>, b: Seq<u64>)
    requires
        increasing(a),
        increasing(b),
        a.to_set() == b.to_set(),
    ensures
        a == b,
    decreases a.len(),
{
    if a.len() == 0 || b.len() == 0 {
        if a.len() > 0 {
            assert(a.to_set().contains(a[0]));
        }
        if b.len() > 0 {
            assert(b.to_set().contains(b[0]));
        }
        assert(a =~= b);
    } else {
        assert(a.to_set().contains(b[0]));
        assert(b.to_set().contains(a[0]));
        let i = choose|i: int| 0 <= i < a.len() && a[i] == b[0];
        let j = choose|j: int| 0 <= j < b.len() && b[j] == a[0];
        assert(a[0] <= a[i]);
        assert(b[0] <= b[j]);
        let a1 = a.drop_first();
        let b1 = b.drop_first();
        assert forall|x: u64| a1.to_set().contains(x) implies b1.to_set().contains(x) by {
            let k = choose|k: int| 0 <= k < a1.len() && a1[k] == x;
            assert(a[k + 1] == x);
            assert(b.to_set().contains(x));
            let m = choose|m: int| 0 <= m < b.len() && b[m] == x;
            assert(m != 0);
            assert(b1[m - 1] == x);
        }
        assert forall|x: u64| b1.to_set().contains(x) implies a1.to_set().contains(x) by {
            let k = choose|k: int| 0 <= k < b1.len() && b1[k] == x;
            assert(b[k + 1] == x);
            assert(a.to_set().contains(x));
            let m = choose|m: int| 0 <= m < a.len() && a[m] == x;
            assert(m != 0);
            assert(a1[m - 1] == x);
        }
        assert(a1.to_set() =~= b1.to_set());
        lemma_increasing_unique(a1, b1);
        assert(a[0] == b[0]);
        assert(a.len() == b.len());
        assert forall|k: int| 0 <= k < a.len() implies a[k] == b[k] by {
            if k > 0 {
                assert(a[k] == a1[k - 1]);
                assert(b[k] == b1[k - 1]);
            }
        }
        assert(a =~= b);
    }
}

/// Every identifier paired with every optimization, the identifiers in
/// order and, for each, the optimizations in order.
pub open spec fn pairs_of(keys: Seq<u64>, n: nat) -> Seq<(u64, usize)> {
    Seq::new(keys.len() * n, |t: int| (keys[t / (n as int)], (t % (n as int)) as usize))
}

/// Calls `itertools::Itertools::cartesian_product` on the identifiers and
/// the optimization indices `0..n`. Its documentation promises the pairs of
/// the cartesian product, the first iterator's elements in order and for
/// each of them the second's in order, which the contract states.
#[verifier::external_body]
fn key_opt_pairs(keys: &Vec<u64>, n: usize) -> (r: Vec<(u64, usize)>)
    ensures
        r@ == pairs_of(keys@, n as nat),
{
    keys.iter().cloned().cartesian_product(0..n).collect()
}

/// Optimization `j` (the `&` fold, then the length of a roll) at the node
/// `k`.
pub open spec fn opt_at(c: OrderedView, k: u64, j: usize) -> Option<Seq<ModView>> {
    if j == 0 {
        spec_and_inline(k, c)
    } else {
        spec_len_dice(k, c)
    }
}

/// The rewrites of the first pair of node and optimization that applies.
pub open spec fn first_opt(c: OrderedView, ps: Seq<(u64, usize)>) -> Option<Seq<ModView>>
    decreases ps.len(),
{
    if ps.len() == 0 {
        None
    } else {
        match opt_at(c, ps[0].0, ps[0].1) {
            Some(m) => Some(m),
            None => first_opt(c, ps.drop_first()),
        }
    }
}

/// One round: `None` where no optimization applies, `Some(None)` where the
/// first that applies cannot be carried out, else the rewritten graph.
pub open spec fn optimize_step(c: OrderedView) -> Option<Option<OrderedView>> {
    match first_opt(c, pairs_of(sorted_dom(c.nodes), 2)) {
        None => None,
        Some(ms) => match apply_mods(c.nodes, ms) {
            None => Some(None),
            Some(g) => Some(Some(OrderedView { nodes: g, ret: c.ret })),
        },
    }
}

/// Rounds of optimization until none applies; `None` where a round's
/// rewrites cannot be carried out, or where `rounds` run out first.
pub open spec fn spec_optimize(c: OrderedView, rounds: nat) -> Option<OrderedView>
    decreases rounds,
{
    if rounds == 0 {
        None
    } else {
        match optimize_step(c) {
            None => Some(c),
            Some(None) => None,
            Some(Some(c2)) => spec_optimize(c2, (rounds - 1) as nat),
        }
    }
}

/// Applies the optimizations until none applies: each round takes the
/// first node, in increasing order, and the first optimization at it that
/// applies. Returns `false` where rewrites could not be carried out.
pub fn brute_force_optimize(coll: &mut OrderedCollection) -> (r: bool)
    ensures
        match spec_optimize(old(coll)@, OPTIMIZE_ROUNDS as nat) {
            Some(v) => r && final(coll)@ == v,
            None => !r,
        },
        r ==> is_fixpoint(final(coll)@),
{
    let mut round: u64 = 0;
    while round < OPTIMIZE_ROUNDS
        invariant
            round <= OPTIMIZE_ROUNDS,
            spec_optimize(old(coll)@, OPTIMIZE_ROUNDS as nat) == spec_optimize(
                coll@,
                (OPTIMIZE_ROUNDS - round) as nat,
            ),
        decreases OPTIMIZE_ROUNDS - round,
    {
        let keys = coll.keys();
        proof {
            let s = sorted_dom(coll@.nodes);
            assert(increasing(keys@) && keys@.to_set() == coll@.nodes.dom());
            lemma_increasing_unique(keys@, s);
        }
        let pairs = key_opt_pairs(&keys, 2);
        let ghost ps = pairs@;
        let ghost c = coll@;
        assert(ps.skip(0) =~= ps);
        let mut found: Option<Modifications> = None;
        let n = pairs.len();
        let mut p: usize = 0;
        while p < n
            invariant_except_break
                n == ps.len(),
                p <= n,
                pairs@ == ps,
                coll@ == c,
                found is None,
                first_opt(c, ps) == first_opt(c, ps.skip(p as int)),
            ensures
                coll@ == c,
                match first_opt(c, ps) {
                    Some(ms) => found matches Some(m) && m@ == ms,
                    None => found is None,
                },
            decreases n - p,
        {
            let (k, j) = pairs[p];
            assert(ps.skip(p as int)[0] == ps[p as int]);
            assert(ps.skip(p as int).drop_first() =~= ps.skip(p + 1));
            let m = if j == 0 {
                and_inline(k, coll)
            } else {
                len_dice(k, coll)
            };
            match m {
                Option::Some(ms) => {
                    found = Some(ms);
                    break;
                },
                Option::None => {},
            }
            p = p + 1;
        }
        proof {
            if p == n {
                assert(ps.skip(n as int) =~= Seq::<(u64, usize)>::empty());
            }
        }
        match found {
            Option::None => {
                proof {
                    vstd::seq_lib::seq_to_set_is_finite(keys@);
                    lemma_step_none_fixpoint(coll@);
                }
                return true;
            },
            Option::Some(ms) => {
                if !ms.apply(coll) {
                    return false;
                }
            },
        }
        round = round + 1;
    }
    false
}

/// No optimization applies at any node.
pub open spec fn is_fixpoint(c: OrderedView) -> bool {
    forall|k: u64|
        c.nodes.contains_key(k) ==> #[trigger] spec_and_inline(k, c) is None && spec_len_dice(k, c) is None
}

/// Where no pair applies, none of them applies.
proof fn lemma_first_opt_none(c: OrderedView, ps: Seq<(u64, usize)>, i: int)
    requires
        first_opt(c, ps) is None,
        0 <= i < ps.len(),
    ensures
        opt_at(c, ps[i].0, ps[i].1) is None,
    decreases ps.len(),
{
    if i > 0 {
        assert(ps.drop_first()[i - 1] == ps[i]);
        lemma_first_opt_none(c, ps.drop_first(), i - 1);
    }
}

/// A round that finds nothing to do leaves a fixpoint.
proof fn lemma_step_none_fixpoint(c: OrderedView)
    requires
        c.nodes.dom().finite(),
        optimize_step(c) is None,
    ensures
        is_fixpoint(c),
{
    super::tracking_laws::lemma_sorted_set(c.nodes.dom());
    let q = super::tracking::sorted_set(c.nodes.dom());
    assert(increasing(q) && q.to_set() == c.nodes.dom());
    let ks = sorted_dom(c.nodes);
    assert(increasing(ks) && ks.to_set() == c.nodes.dom());
    let ps = pairs_of(ks, 2);
    assert forall|k: u64| c.nodes.contains_key(k) implies #[trigger] spec_and_inline(k, c) is None && spec_len_dice(
        k,
        c,
    ) is None by {
        assert(ks.to_set().contains(k));
        let i = choose|i: int| 0 <= i < ks.len() && ks[i] == k;
        assert(ps[2 * i] == (k, 0usize)) by (nonlinear_arith)
            requires
                ps == pairs_of(ks, 2),
                0 <= i < ks.len(),
                ks[i] == k,
        ;
        assert(ps[2 * i + 1] == (k, 1usize)) by (nonlinear_arith)
            requires
                ps == pairs_of(ks, 2),
                0 <= i < ks.len(),
                ks[i] == k,
        ;
        assert(2 * i + 1 < ps.len()) by (nonlinear_arith)
            requires
                ps.len() == ks.len() * 2,
                0 <= i < ks.len(),
        ;
        lemma_first_opt_none(c, ps, 2 * i);
        lemma_first_opt_none(c, ps, 2 * i + 1);
    }
}

} // verus!
