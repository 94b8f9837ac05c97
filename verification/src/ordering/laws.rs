//! Properties of the ordering data and of graph rewrites that hold for all
//! inputs.
use vstd::prelude::*;

use super::builder::{order_args, order_node, shape_of, spec_node, spec_plan};
use super::coll::OrderedView;
use super::expr::{Shape, StdKind};
use super::holes::{is_roll, len_sinks, spec_and_inline, spec_len_dice};
use super::tracking::stdlib_call;
use super::coll::update_ord;
use crate::inliner::coll::{closed, keyed, InlinedView};
use crate::inliner::expr::{children, inlined_hash};
use super::builder::ORDER_DEPTH;
use super::coll::spec_ordered;
use crate::inliner::InlinedExpression;
use crate::parser_output::TypeData;
use super::expr::NodeView;
use super::graphs::{apply_mod, apply_mods, ModView};
use super::matcher::Match;
use super::ord::{lemma_position, position, swap_source, with_sink, without_sink, OrdView};

verus! {

/// Recording a sink twice records it once.
pub proof fn lemma_add_sink_idempotent(o: OrdView, m: Match)
    ensures
        with_sink(with_sink(o, m), m) == with_sink(o, m),
        with_sink(o, m).sinks.contains(m),
{
    if !o.sinks.contains(m) {
        assert(o.sinks.push(m)[o.sinks.len() as int] == m);
    }
}

/// Removing a sink that was just recorded, where it was not recorded
/// before, gives the ordering data back.
pub proof fn lemma_remove_added_sink(o: OrdView, m: Match)
    requires
        !o.sinks.contains(m),
    ensures
        without_sink(with_sink(o, m), m) == o,
{
    let s = o.sinks.push(m);
    lemma_position(s, m);
    lemma_position(o.sinks, m);
    let i = position(s, m);
    assert(s[o.sinks.len() as int] == m);
    assert(i == o.sinks.len()) by {
        if i < o.sinks.len() {
            assert(s[i] == o.sinks[i]);
            assert(o.sinks[i] == m);
            assert(o.sinks.contains(m));
        }
    }
    assert(s.remove(i) =~= o.sinks);
}

/// Swapping a source for one that is not a source, and back, gives the
/// ordering data back.
pub proof fn lemma_swap_source_back(o: OrdView, a: Match, b: Match)
    requires
        o.sources.contains(a),
        !o.sources.contains(b),
    ensures
        swap_source(swap_source(o, a, b), b, a) == o,
{
    lemma_position(o.sources, a);
    let i = position(o.sources, a);
    let s = o.sources.update(i, b);
    lemma_position(s, b);
    let j = position(s, b);
    assert(s[i] == b);
    assert(j == i) by {
        if j < i {
            assert(s[j] == o.sources[j]);
            assert(o.sources[j] == b);
            assert(o.sources.contains(b));
        }
    }
    assert(s.update(i, a) =~= o.sources);
}

/// Inserting a node under a free identifier and removing it again gives
/// the graph back.
pub proof fn lemma_insert_remove(g: Map<u64, NodeView>, n: NodeView)
    requires
        !g.contains_key(n.ord.id.id),
    ensures
        apply_mods(g, seq![ModView::Insert(n), ModView::Remove(n.ord.id)]) == Some(g),
{
    reveal_with_fuel(apply_mods, 3);
    let ms = seq![ModView::Insert(n), ModView::Remove(n.ord.id)];
    let g1 = g.insert(n.ord.id.id, n);
    assert(apply_mod(g, ms[0]) == Some(g1));
    assert(ms.drop_first() =~= seq![ModView::Remove(n.ord.id)]);
    assert(g1.remove(n.ord.id.id) =~= g);
    assert(apply_mods(g1.remove(n.ord.id.id), ms.drop_first().drop_first()) == Some(g1.remove(n.ord.id.id))) by {
        assert(ms.drop_first().drop_first() =~= Seq::<ModView>::empty());
    }
}

/// Applying two lists of rewrites one after the other is applying their
/// concatenation.
pub proof fn lemma_apply_concat(g: Map<u64, NodeView>, a: Seq<ModView>, b: Seq<ModView>)
    ensures
        apply_mods(g, a + b) == match apply_mods(g, a) {
            Some(g1) => apply_mods(g1, b),
            None => None,
        },
    decreases a.len(),
{
    if a.len() > 0 {
        assert((a + b).drop_first() =~= a.drop_first() + b);
        assert((a + b)[0] == a[0]);
        match apply_mod(g, a[0]) {
            Some(g1) => lemma_apply_concat(g1, a.drop_first(), b),
            None => {},
        }
    } else {
        assert(a + b =~= b);
    }
}

/// Recording a sink changes nothing but the node's sinks.
pub proof fn lemma_add_sink_frame(g: Map<u64, NodeView>, e: Match, s: Match)
    requires
        g.contains_key(e.id),
    ensures
        apply_mod(g, ModView::AddSink(e, s)) matches Some(g2) && g2.dom() == g.dom() && g2[e.id].shape
            == g[e.id].shape && g2[e.id].ord.sources == g[e.id].ord.sources && g2[e.id].ord.id == g[e.id].ord.id
            && forall|k: u64| k != e.id && #[trigger] g.contains_key(k) ==> g2[k] == g[k],
{
    let g2 = update_ord(g, e.id, with_sink(g[e.id].ord, s));
    assert(g2.dom() =~= g.dom());
}

/// The node `k` is among the readers `o` records.
pub open spec fn has_sink_from(o: OrdView, k: u64) -> bool {
    exists|j: int| 0 <= j < o.sinks.len() && #[trigger] o.sinks[j].id == k
}

/// Every source of every node is a node that records the reader among its
/// sinks.
pub open spec fn edges_recorded(c: Map<u64, NodeView>) -> bool {
    forall|k: u64, i: int|
        #![trigger c.contains_key(k), c[k].ord.sources[i]]
        c.contains_key(k) && 0 <= i < c[k].ord.sources.len() ==> c.contains_key(c[k].ord.sources[i].id)
            && has_sink_from(c[c[k].ord.sources[i].id].ord, k)
}

/// `c2` keeps every node of `c` with its kind, its own match and its
/// sources, and every reader it records.
pub open spec fn keeps_nodes(c: Map<u64, NodeView>, c2: Map<u64, NodeView>) -> bool {
    forall|k: u64|
        #[trigger] c.contains_key(k) ==> c2.contains_key(k) && c2[k].shape == c[k].shape && c2[k].ord.id == c[k].ord.id
            && c2[k].ord.sources == c[k].ord.sources && forall|r: u64| has_sink_from(c[k].ord, r) ==> has_sink_from(c2[k].ord, r)
}

/// Recording a sink keeps the readers recorded and adds the new one.
proof fn lemma_with_sink_from(o: OrdView, m: Match)
    ensures
        has_sink_from(with_sink(o, m), m.id),
        forall|r: u64| has_sink_from(o, r) ==> has_sink_from(with_sink(o, m), r),
        with_sink(o, m).sources == o.sources,
{
    if o.sinks.contains(m) {
        let j = choose|j: int| 0 <= j < o.sinks.len() && o.sinks[j] == m;
        assert(o.sinks[j].id == m.id);
    } else {
        let s = o.sinks.push(m);
        assert(s[o.sinks.len() as int].id == m.id);
        assert forall|r: u64| has_sink_from(o, r) implies has_sink_from(with_sink(o, m), r) by {
            let j = choose|j: int| 0 <= j < o.sinks.len() && #[trigger] o.sinks[j].id == r;
            assert(s[j] == o.sinks[j]);
        }
    }
}

/// Keeping nodes is transitive.
pub(crate) proof fn lemma_keeps_trans(a: Map<u64, NodeView>, b: Map<u64, NodeView>, c: Map<u64, NodeView>)
    requires
        keeps_nodes(a, b),
        keeps_nodes(b, c),
    ensures
        keeps_nodes(a, c),
{
    assert forall|k: u64| #[trigger] a.contains_key(k) implies c.contains_key(k) && c[k].ord.sources == a[k].ord.sources
        && forall|r: u64| has_sink_from(a[k].ord, r) ==> has_sink_from(c[k].ord, r) by {
        assert(b.contains_key(k));
    }
}

/// Recording a sink on a node keeps the nodes and the recorded edges.
pub(crate) proof fn lemma_add_sink_edges(c: Map<u64, NodeView>, a: u64, m: Match)
    requires
        c.contains_key(a),
        edges_recorded(c),
    ensures
        keeps_nodes(c, update_ord(c, a, with_sink(c[a].ord, m))),
        edges_recorded(update_ord(c, a, with_sink(c[a].ord, m))),
        has_sink_from(update_ord(c, a, with_sink(c[a].ord, m))[a].ord, m.id),
{
    let c2 = update_ord(c, a, with_sink(c[a].ord, m));
    lemma_with_sink_from(c[a].ord, m);
    assert forall|k: u64| #[trigger] c.contains_key(k) implies c2.contains_key(k) && c2[k].ord.sources == c[k].ord.sources
        && forall|r: u64| has_sink_from(c[k].ord, r) ==> has_sink_from(c2[k].ord, r) by {
        if k != a {
            assert(c2[k] == c[k]);
        }
    }
    assert forall|k: u64, i: int|
        #![trigger c2.contains_key(k), c2[k].ord.sources[i]]
        c2.contains_key(k) && 0 <= i < c2[k].ord.sources.len() implies c2.contains_key(c2[k].ord.sources[i].id)
            && has_sink_from(c2[c2[k].ord.sources[i].id].ord, k) by {
        assert(c.contains_key(k));
        assert(c2[k].ord.sources == c[k].ord.sources);
        let s = c[k].ord.sources[i].id;
        assert(c.contains_key(s) && has_sink_from(c[s].ord, k));
    }
}

/// Building the node of an inlined expression keeps the nodes there, and
/// the edges recorded; the node is then there.
pub proof fn lemma_order_node_edges(old: Map<u64, InlinedExpression>, c: Map<u64, NodeView>, e: InlinedExpression, fuel: nat)
    requires
        edges_recorded(c),
        order_node(old, c, e, fuel) is Some,
    ensures
        edges_recorded(order_node(old, c, e, fuel)->Some_0),
        keeps_nodes(c, order_node(old, c, e, fuel)->Some_0),
        order_node(old, c, e, fuel)->Some_0.contains_key(inlined_hash(e)),
    decreases fuel, 1nat, 0nat,
{
    let id = inlined_hash(e);
    if c.contains_key(id) {
        assert(keeps_nodes(c, c));
    } else {
        let (kind, args) = spec_plan(old, e)->Some_0;
        lemma_order_args_edges(old, c, id, args, (fuel - 1) as nat);
        let c1 = order_args(old, c, id, args, (fuel - 1) as nat)->Some_0;
        if !c1.contains_key(id) {
            let n = spec_node(e, id, kind, args);
            let c2 = c1.insert(id, n);
            assert forall|k: u64| #[trigger] c1.contains_key(k) implies c2.contains_key(k) && c2[k].ord.sources == c1[k].ord.sources
                && forall|r: u64| has_sink_from(c1[k].ord, r) ==> has_sink_from(c2[k].ord, r) by {
                assert(c2[k] == c1[k]);
            }
            assert forall|k: u64, i: int|
                #![trigger c2.contains_key(k), c2[k].ord.sources[i]]
                c2.contains_key(k) && 0 <= i < c2[k].ord.sources.len() implies c2.contains_key(c2[k].ord.sources[i].id)
                    && has_sink_from(c2[c2[k].ord.sources[i].id].ord, k) by {
                if k == id {
                    assert(c2[k] == n);
                    assert(n.ord.sources[i].id == args[i].0);
                    assert(c1.contains_key(args[i].0) && has_sink_from(c1[args[i].0].ord, id));
                    assert(c2[args[i].0] == c1[args[i].0]);
                } else {
                    assert(c2[k] == c1[k]);
                    let s = c1[k].ord.sources[i].id;
                    assert(c1.contains_key(s) && has_sink_from(c1[s].ord, k));
                    assert(c2[s] == c1[s]);
                }
            }
            lemma_keeps_trans(c, c1, c2);
        }
    }
}

/// Building the nodes of a node's arguments keeps the nodes there and the
/// edges recorded; each argument is then there and records the node
/// among its readers.
pub proof fn lemma_order_args_edges(
    old: Map<u64, InlinedExpression>,
    c: Map<u64, NodeView>,
    id: u64,
    args: Seq<(u64, TypeData, TypeData)>,
    fuel: nat,
)
    requires
        edges_recorded(c),
        order_args(old, c, id, args, fuel) is Some,
    ensures
        edges_recorded(order_args(old, c, id, args, fuel)->Some_0),
        keeps_nodes(c, order_args(old, c, id, args, fuel)->Some_0),
        forall|i: int|
            0 <= i < args.len() ==> order_args(old, c, id, args, fuel)->Some_0.contains_key(#[trigger] args[i].0)
                && has_sink_from(order_args(old, c, id, args, fuel)->Some_0[args[i].0].ord, id),
    decreases fuel, 2nat, args.len(),
{
    if args.len() == 0 {
        assert(keeps_nodes(c, c));
    } else {
        let (a, _, t) = args[0];
        lemma_order_node_edges(old, c, old[a], fuel);
        let c1 = order_node(old, c, old[a], fuel)->Some_0;
        let m = Match { kind: t, id };
        lemma_add_sink_edges(c1, a, m);
        let c2 = update_ord(c1, a, with_sink(c1[a].ord, m));
        lemma_order_args_edges(old, c2, id, args.drop_first(), fuel);
        let c3 = order_args(old, c2, id, args.drop_first(), fuel)->Some_0;
        lemma_keeps_trans(c, c1, c2);
        lemma_keeps_trans(c, c2, c3);
        assert forall|i: int| 0 <= i < args.len() implies c3.contains_key(#[trigger] args[i].0) && has_sink_from(
            c3[args[i].0].ord,
            id,
        ) by {
            if i == 0 {
                assert(c2.contains_key(a));
            } else {
                assert(args.drop_first()[i - 1] == args[i]);
            }
        }
    }
}

/// `rank` orders the stored expressions: the arguments of each rank lower.
pub open spec fn ranked(old: Map<u64, InlinedExpression>, rank: spec_fn(u64) -> nat) -> bool {
    forall|k: u64, i: int|
        #![trigger old.contains_key(k), children(old[k])[i]]
        old.contains_key(k) && 0 <= i < children(old[k]).len() ==> rank(children(old[k])[i]) < rank(k)
}

/// Every stored expression has a node: each operation has a node for the
/// types of its operands.
pub open spec fn plannable(old: Map<u64, InlinedExpression>) -> bool {
    forall|k: u64| #[trigger] old.contains_key(k) ==> spec_plan(old, old[k]) is Some
}

/// The arguments of a plan are the expression's arguments.
proof fn lemma_plan_children(old: Map<u64, InlinedExpression>, e: InlinedExpression)
    requires
        spec_plan(old, e) is Some,
    ensures
        spec_plan(old, e)->Some_0.1.len() == children(e).len(),
        forall|i: int|
            0 <= i < children(e).len() ==> #[trigger] spec_plan(old, e)->Some_0.1[i].0 == children(e)[i],
{
}

/// Building a node that is built stores it under its hash.
proof fn lemma_order_node_stores(old: Map<u64, InlinedExpression>, c: Map<u64, NodeView>, e: InlinedExpression, fuel: nat)
    requires
        order_node(old, c, e, fuel) is Some,
    ensures
        order_node(old, c, e, fuel)->Some_0.contains_key(inlined_hash(e)),
{
}

/// The node of a stored expression is built whenever the fuel exceeds its
/// rank, whatever the table built so far.
proof fn lemma_order_node_some(
    old: Map<u64, InlinedExpression>,
    rank: spec_fn(u64) -> nat,
    c: Map<u64, NodeView>,
    k: u64,
    fuel: nat,
)
    requires
        keyed(old),
        closed(old),
        ranked(old, rank),
        plannable(old),
        old.contains_key(k),
        rank(k) < fuel,
    ensures
        order_node(old, c, old[k], fuel) is Some,
    decreases fuel, 0nat,
{
    assert(inlined_hash(old[k]) == k);
    if !c.contains_key(k) {
        let (kind, args) = spec_plan(old, old[k])->Some_0;
        lemma_plan_children(old, old[k]);
        assert forall|i: int| 0 <= i < args.len() implies old.contains_key(#[trigger] args[i].0) && rank(args[i].0) < (
        fuel - 1) as nat by {
            assert(args[i].0 == children(old[k])[i]);
            assert(old.contains_key(k) && 0 <= i < children(old[k]).len());
        }
        lemma_order_args_some(old, rank, c, k, args, (fuel - 1) as nat);
    }
}

/// The nodes of arguments that are stored and rank below the fuel are
/// built, whatever the table built so far.
proof fn lemma_order_args_some(
    old: Map<u64, InlinedExpression>,
    rank: spec_fn(u64) -> nat,
    c: Map<u64, NodeView>,
    id: u64,
    args: Seq<(u64, TypeData, TypeData)>,
    fuel: nat,
)
    requires
        keyed(old),
        closed(old),
        ranked(old, rank),
        plannable(old),
        forall|i: int| 0 <= i < args.len() ==> old.contains_key(#[trigger] args[i].0) && rank(args[i].0) < fuel,
    ensures
        order_args(old, c, id, args, fuel) is Some,
    decreases fuel, 1nat + args.len(),
{
    if args.len() > 0 {
        let (a, _, t) = args[0];
        assert(old.contains_key(args[0].0));
        lemma_order_node_some(old, rank, c, a, fuel);
        lemma_order_node_stores(old, c, old[a], fuel);
        assert(inlined_hash(old[a]) == a);
        let c1 = order_node(old, c, old[a], fuel)->Some_0;
        let c2 = update_ord(c1, a, with_sink(c1[a].ord, Match { kind: t, id }));
        assert forall|i: int| 0 <= i < args.drop_first().len() implies old.contains_key(
            #[trigger] args.drop_first()[i].0,
        ) && rank(args.drop_first()[i].0) < fuel by {
            assert(args.drop_first()[i] == args[i + 1]);
        }
        lemma_order_args_some(old, rank, c2, id, args.drop_first(), fuel);
    }
}

/// The graph of an inlined collection is built, with its final node,
/// whenever its table stores every expression under its own hash with
/// everything it refers to, every operation has a node for its operands'
/// types, and the references rank the expressions below the builder's
/// depth: that is, they form no cycle and nest fewer than 2^64 levels.
pub proof fn lemma_ordering_succeeds(old: InlinedView, rank: spec_fn(u64) -> nat)
    requires
        old.ret is Some,
        old.exprs.contains_key(old.ret->Some_0),
        keyed(old.exprs),
        closed(old.exprs),
        ranked(old.exprs, rank),
        plannable(old.exprs),
        rank(old.ret->Some_0) < ORDER_DEPTH,
    ensures
        spec_ordered(old) is Some,
        order_node(old.exprs, Map::empty(), old.exprs[old.ret->Some_0], ORDER_DEPTH as nat) is Some,
{
    let k = old.ret->Some_0;
    lemma_order_node_some(old.exprs, rank, Map::empty(), k, ORDER_DEPTH as nat);
    lemma_order_node_stores(old.exprs, Map::empty(), old.exprs[k], ORDER_DEPTH as nat);
    assert(inlined_hash(old.exprs[k]) == k);
}

/// Building the node of a stored expression succeeds, whatever the table
/// built so far, whenever the inlined table stores every expression under
/// its own hash with everything it refers to, every operation has a node
/// for its operands' types, and the references rank the expression below
/// the builder's depth. The table built then holds the node and, where
/// the one before recorded every edge, keeps its nodes and records every
/// edge too.
pub proof fn lemma_node_built(old: InlinedView, c: Map<u64, NodeView>, k: u64, rank: spec_fn(u64) -> nat)
    requires
        keyed(old.exprs),
        closed(old.exprs),
        ranked(old.exprs, rank),
        plannable(old.exprs),
        old.exprs.contains_key(k),
        rank(k) < ORDER_DEPTH,
    ensures
        order_node(old.exprs, c, old.exprs[k], ORDER_DEPTH as nat) is Some,
        order_node(old.exprs, c, old.exprs[k], ORDER_DEPTH as nat)->Some_0.contains_key(k),
        edges_recorded(c) ==> edges_recorded(order_node(old.exprs, c, old.exprs[k], ORDER_DEPTH as nat)->Some_0)
            && keeps_nodes(c, order_node(old.exprs, c, old.exprs[k], ORDER_DEPTH as nat)->Some_0),
{
    lemma_order_node_some(old.exprs, rank, c, k, ORDER_DEPTH as nat);
    lemma_order_node_stores(old.exprs, c, old.exprs[k], ORDER_DEPTH as nat);
    assert(inlined_hash(old.exprs[k]) == k);
    if edges_recorded(c) {
        lemma_order_node_edges(old.exprs, c, old.exprs[k], ORDER_DEPTH as nat);
    }
}

/// The name of the standard function a node of kind `k` computes.
pub open spec fn std_kind_name(k: StdKind) -> Seq<char> {
    match k {
        StdKind::D6 => "roll_d6"@,
        StdKind::D3 => "roll_d3"@,
        StdKind::Filter => "filter"@,
        StdKind::Count => "count"@,
        StdKind::Len => "len"@,
        StdKind::Join => "join"@,
        StdKind::Sum => "sum"@,
        StdKind::Max => "max"@,
        StdKind::Min => "min"@,
    }
}

/// The node built for an inlined expression computes what the expression
/// computes: a call of the standard library becomes the node of the
/// function of that name, an operation the node of that operation, and a
/// constant the node of that constant.
pub proof fn lemma_node_computes_expression(e: InlinedExpression)
    ensures
        stdlib_call(e) matches Some((name, _)) ==> shape_of(e) matches Shape::StdLib(k) && std_kind_name(k) == name,
        e matches InlinedExpression::Operation(_, op, _, _) ==> shape_of(e) == Shape::Op(op),
        e matches InlinedExpression::ConstantInt(i) ==> shape_of(e) == Shape::Int(i),
        e matches InlinedExpression::ConstantBool(b) ==> shape_of(e) == Shape::Bool(b),
{
}

/// Folding an `&` node of type `int` that reads the integer constants `a`
/// and `b` inserts, as its last rewrite, a new constant holding `a & b`,
/// of type `int` and reading nothing.
pub proof fn lemma_and_inline_folds(expr: u64, c: OrderedView, a: i32, b: i32)
    requires
        c.nodes.contains_key(expr),
        c.nodes.len() < 0xffff_ffff_ffff_ffff,
        c.nodes[expr].shape == Shape::Op(crate::parser_output::Operation::And),
        c.nodes[expr].ord.id.kind == TypeData::Int,
        c.nodes[expr].ord.sources.len() >= 2,
        c.nodes.contains_key(c.nodes[expr].ord.sources[0].id),
        c.nodes.contains_key(c.nodes[expr].ord.sources[1].id),
        c.nodes[c.nodes[expr].ord.sources[0].id].shape == Shape::Int(a),
        c.nodes[c.nodes[expr].ord.sources[1].id].shape == Shape::Int(b),
    ensures
        ({
            let r = spec_and_inline(expr, c);
            &&& r is Some
            &&& r->Some_0.len() > 0
            &&& r->Some_0.last() is Insert
            &&& r->Some_0.last()->Insert_0.shape == Shape::Int(a & b)
            &&& r->Some_0.last()->Insert_0.ord.id.kind == TypeData::Int
            &&& r->Some_0.last()->Insert_0.ord.sources.len() == 0
        }),
{
    let n = c.nodes[expr];
    let new_id = choose|f: u64| super::coll::is_first_free(c.nodes, f);
    lemma_interior_sources(n.ord.sinks, n.ord.id, OrdView {
        id: Match { kind: TypeData::Int, id: new_id },
        sources: Seq::empty(),
        sinks: Seq::empty(),
    }, Seq::empty());
}

/// Folding an `&` node of type `int` that reads the boolean constants `a`
/// and `b` inserts, as its last rewrite, a new constant holding `a && b`,
/// of type `bool` and reading nothing.
pub proof fn lemma_and_inline_folds_booleans(expr: u64, c: OrderedView, a: bool, b: bool)
    requires
        c.nodes.contains_key(expr),
        c.nodes.len() < 0xffff_ffff_ffff_ffff,
        c.nodes[expr].shape == Shape::Op(crate::parser_output::Operation::And),
        c.nodes[expr].ord.id.kind == TypeData::Int,
        c.nodes[expr].ord.sources.len() >= 2,
        c.nodes.contains_key(c.nodes[expr].ord.sources[0].id),
        c.nodes.contains_key(c.nodes[expr].ord.sources[1].id),
        c.nodes[c.nodes[expr].ord.sources[0].id].shape == Shape::Bool(a),
        c.nodes[c.nodes[expr].ord.sources[1].id].shape == Shape::Bool(b),
    ensures
        ({
            let r = spec_and_inline(expr, c);
            &&& r is Some
            &&& r->Some_0.len() > 0
            &&& r->Some_0.last() is Insert
            &&& r->Some_0.last()->Insert_0.shape == Shape::Bool(a && b)
            &&& r->Some_0.last()->Insert_0.ord.id.kind == TypeData::Bool
            &&& r->Some_0.last()->Insert_0.ord.sources.len() == 0
        }),
{
    let n = c.nodes[expr];
    let new_id = choose|f: u64| super::coll::is_first_free(c.nodes, f);
    lemma_interior_sources(n.ord.sinks, n.ord.id, OrdView {
        id: Match { kind: TypeData::Bool, id: new_id },
        sources: Seq::empty(),
        sinks: Seq::empty(),
    }, Seq::empty());
}

/// An `&` node that does not read two constants of one kind is left alone.
pub proof fn lemma_and_inline_needs_constants(expr: u64, c: OrderedView)
    requires
        c.nodes.contains_key(expr),
        c.nodes[expr].ord.sources.len() >= 2,
        c.nodes.contains_key(c.nodes[expr].ord.sources[0].id),
        c.nodes.contains_key(c.nodes[expr].ord.sources[1].id),
        !(c.nodes[c.nodes[expr].ord.sources[0].id].shape is Int && c.nodes[c.nodes[expr].ord.sources[1].id].shape is Int),
        !(c.nodes[c.nodes[expr].ord.sources[0].id].shape is Bool && c.nodes[c.nodes[expr].ord.sources[1].id].shape is Bool),
    ensures
        spec_and_inline(expr, c) is None,
{
}

/// Redirecting the readers of a length to the constant: every rewrite
/// added swaps the length for the constant in a reader, or records a
/// reader on the constant, and every reader is redirected.
proof fn lemma_len_sinks(sinks: Seq<Match>, len_m: Match, count_m: Match, mods: Seq<ModView>)
    ensures
        len_sinks(sinks, len_m, count_m, mods).len() == mods.len() + 2 * sinks.len(),
        forall|i: int| 0 <= i < mods.len() ==> #[trigger] len_sinks(sinks, len_m, count_m, mods)[i] == mods[i],
        forall|i: int|
            mods.len() <= i < len_sinks(sinks, len_m, count_m, mods).len() ==> {
                let m = #[trigger] len_sinks(sinks, len_m, count_m, mods)[i];
                ||| m is SwapSource && m->SwapSource_1 == len_m && m->SwapSource_2 == count_m
                ||| m is AddSink && m->AddSink_0 == count_m
            },
        forall|j: int|
            0 <= j < sinks.len() ==> len_sinks(sinks, len_m, count_m, mods).contains(
                ModView::SwapSource(#[trigger] sinks[j], len_m, count_m),
            ),
    decreases sinks.len(),
{
    if sinks.len() > 0 {
        let init = sinks.drop_last();
        lemma_len_sinks(init, len_m, count_m, mods);
        let r0 = len_sinks(init, len_m, count_m, mods);
        let r = len_sinks(sinks, len_m, count_m, mods);
        assert(r == r0.push(ModView::SwapSource(sinks.last(), len_m, count_m)).push(ModView::AddSink(count_m, sinks.last())));
        assert forall|i: int| 0 <= i < mods.len() implies #[trigger] r[i] == mods[i] by {
            assert(r[i] == r0[i]);
        }
        assert forall|i: int| mods.len() <= i < r.len() implies {
            let m = #[trigger] r[i];
            ||| m is SwapSource && m->SwapSource_1 == len_m && m->SwapSource_2 == count_m
            ||| m is AddSink && m->AddSink_0 == count_m
        } by {
            if i < r0.len() {
                assert(r[i] == r0[i]);
            }
        }
        assert forall|j: int| 0 <= j < sinks.len() implies r.contains(ModView::SwapSource(#[trigger] sinks[j], len_m, count_m)) by {
            if j < init.len() {
                assert(init[j] == sinks[j]);
                let q = choose|q: int| 0 <= q < r0.len() && r0[q] == ModView::SwapSource(sinks[j], len_m, count_m);
                assert(r[q] == r0[q]);
            } else {
                assert(r[r0.len() as int] == ModView::SwapSource(sinks[j], len_m, count_m));
            }
        }
    }
}

/// Reducing `len(roll(N))` reads the constant `N` in place of the length:
/// every swap of a source replaces the length by the constant (the final
/// node's and each reader's), every reader of the length is redirected
/// and recorded on the constant, and the length is removed.
pub proof fn lemma_len_dice_redirects_to_count(expr: u64, c: OrderedView)
    requires
        spec_len_dice(expr, c) is Some,
    ensures
        ({
            let ms = spec_len_dice(expr, c)->Some_0;
            let n = c.nodes[expr];
            let roll = c.nodes[n.ord.sources[0].id];
            let count = c.nodes[roll.ord.sources[0].id];
            &&& n.shape == Shape::StdLib(StdKind::Len)
            &&& is_roll(roll.shape)
            &&& count.shape is Int
            &&& forall|i: int|
                0 <= i < ms.len() && (#[trigger] ms[i]) is SwapSource ==> ms[i]->SwapSource_1 == n.ord.id
                    && ms[i]->SwapSource_2 == count.ord.id
            &&& forall|i: int| 0 <= i < ms.len() && (#[trigger] ms[i]) is AddSink ==> ms[i]->AddSink_0 == count.ord.id
            &&& forall|j: int|
                0 <= j < n.ord.sinks.len() ==> ms.contains(ModView::SwapSource(#[trigger] n.ord.sinks[j], n.ord.id, count.ord.id))
            &&& ms.contains(ModView::Remove(n.ord.id))
        }),
{
    let ms = spec_len_dice(expr, c)->Some_0;
    let n = c.nodes[expr];
    let roll = c.nodes[n.ord.sources[0].id];
    let count = c.nodes[roll.ord.sources[0].id];
    let m0 = seq![ModView::SwapSource(Match { kind: TypeData::Bool, id: 0 }, n.ord.id, count.ord.id)];
    lemma_len_sinks(n.ord.sinks, n.ord.id, count.ord.id, m0);
    let m1 = len_sinks(n.ord.sinks, n.ord.id, count.ord.id, m0);
    let m2 = m1.push(ModView::Remove(n.ord.id)).push(ModView::RemoveSink(roll.ord.id, n.ord.id));
    assert forall|i: int| 0 <= i < ms.len() && (#[trigger] ms[i]) is SwapSource implies ms[i]->SwapSource_1 == n.ord.id
        && ms[i]->SwapSource_2 == count.ord.id by {
        if i < m1.len() {
            assert(ms[i] == m1[i]);
            if i < 1 {
                assert(m1[i] == m0[i]);
            }
        }
    }
    assert forall|i: int| 0 <= i < ms.len() && (#[trigger] ms[i]) is AddSink implies ms[i]->AddSink_0 == count.ord.id by {
        if i < m1.len() {
            assert(ms[i] == m1[i]);
            if i < 1 {
                assert(m1[i] == m0[i]);
            }
        }
    }
    assert forall|j: int| 0 <= j < n.ord.sinks.len() implies ms.contains(ModView::SwapSource(#[trigger] n.ord.sinks[j], n.ord.id, count.ord.id)) by {
        let q = choose|q: int| 0 <= q < m1.len() && m1[q] == ModView::SwapSource(n.ord.sinks[j], n.ord.id, count.ord.id);
        assert(ms[q] == m1[q]);
    }
    assert(ms[m1.len() as int] == ModView::Remove(n.ord.id));
}

/// Redirecting readers to a new constant adds no source to it and keeps
/// its own match.
proof fn lemma_interior_sources(sinks: Seq<Match>, root: Match, nc: OrdView, mods: Seq<ModView>)
    ensures
        super::holes::interior_sinks(sinks, root, nc, mods).0.sources == nc.sources,
        super::holes::interior_sinks(sinks, root, nc, mods).0.id == nc.id,
    decreases sinks.len(),
{
    if sinks.len() > 0 {
        lemma_interior_sources(sinks.drop_last(), root, nc, mods);
    }
}

} // verus!
