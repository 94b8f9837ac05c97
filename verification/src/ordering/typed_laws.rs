//! The graph builder records every edge at one type on both ends: the
//! type at which a node reads an argument is the argument's own type, and
//! the argument records the reader at that same type.
use vstd::prelude::*;

use super::builder::{order_args, order_node, spec_node, spec_plan};
use super::coll::update_ord;
use super::expr::NodeView;
use super::matcher::Match;
use super::ord::with_sink;
use crate::inliner::coll::keyed;
use crate::inliner::expr::inlined_hash;
use crate::inliner::InlinedExpression;
use crate::parser_output::TypeData;

verus! {

/// Every source of every node is a node whose own type is the type the
/// source is read at, and which records the reader at that type.
pub open spec fn edges_typed(c: Map<u64, NodeView>) -> bool {
    forall|k: u64, i: int|
        #![trigger c.contains_key(k), c[k].ord.sources[i]]
        c.contains_key(k) && 0 <= i < c[k].ord.sources.len() ==> {
            let s = c[k].ord.sources[i];
            &&& c.contains_key(s.id)
            &&& c[s.id].ord.id.kind == s.kind
            &&& c[s.id].ord.sinks.contains(Match { kind: s.kind, id: k })
        }
}

/// The type a stored expression's node has.
pub open spec fn node_kind(old: Map<u64, InlinedExpression>, k: u64) -> TypeData {
    spec_plan(old, old[k])->Some_0.0
}

/// Every stored expression has a plan, and reads each argument at the type
/// of the argument's own node, and is recorded by it at that type.
pub open spec fn plans_typed(old: Map<u64, InlinedExpression>) -> bool {
    &&& forall|k: u64| #[trigger] old.contains_key(k) ==> spec_plan(old, old[k]) is Some
    &&& forall|k: u64, i: int|
        #![trigger old.contains_key(k), spec_plan(old, old[k])->Some_0.1[i]]
        old.contains_key(k) && 0 <= i < spec_plan(old, old[k])->Some_0.1.len() ==> {
            let (a, sk, t) = spec_plan(old, old[k])->Some_0.1[i];
            &&& old.contains_key(a)
            &&& node_kind(old, a) == sk
            &&& t == sk
        }
}

/// Every node of the table was built from the stored expression under its
/// key, with that expression's type.
pub open spec fn kinds_match(old: Map<u64, InlinedExpression>, c: Map<u64, NodeView>) -> bool {
    forall|k: u64| #[trigger] c.contains_key(k) ==> old.contains_key(k) && c[k].ord.id.kind == node_kind(old, k)
}

/// `c2` keeps every node of `c` with its own match and sources, and every
/// reader each one records.
pub open spec fn keeps_typed(c: Map<u64, NodeView>, c2: Map<u64, NodeView>) -> bool {
    forall|k: u64|
        #[trigger] c.contains_key(k) ==> c2.contains_key(k) && c2[k].ord.id == c[k].ord.id && c2[k].ord.sources
            == c[k].ord.sources && forall|m: Match| c[k].ord.sinks.contains(m) ==> #[trigger] c2[k].ord.sinks.contains(m)
}

proof fn lemma_keeps_typed_trans(a: Map<u64, NodeView>, b: Map<u64, NodeView>, c: Map<u64, NodeView>)
    requires
        keeps_typed(a, b),
        keeps_typed(b, c),
    ensures
        keeps_typed(a, c),
{
    assert forall|k: u64| #[trigger] a.contains_key(k) implies c.contains_key(k) && c[k].ord.id == a[k].ord.id
        && c[k].ord.sources == a[k].ord.sources && forall|m: Match| a[k].ord.sinks.contains(m) ==> #[trigger] c[k].ord.sinks.contains(m) by {
        assert(b.contains_key(k));
        assert forall|m: Match| a[k].ord.sinks.contains(m) implies #[trigger] c[k].ord.sinks.contains(m) by {
            assert(b[k].ord.sinks.contains(m));
        }
    }
}

/// A table that keeps the nodes of a typed table, adds no source to them,
/// and only adds to their readers, is typed on those nodes.
proof fn lemma_typed_kept(c: Map<u64, NodeView>, c2: Map<u64, NodeView>, k: u64, i: int)
    requires
        edges_typed(c),
        keeps_typed(c, c2),
        c.contains_key(k),
        0 <= i < c[k].ord.sources.len(),
    ensures
        c2.contains_key(c2[k].ord.sources[i].id),
        c2[c2[k].ord.sources[i].id].ord.id.kind == c2[k].ord.sources[i].kind,
        c2[c2[k].ord.sources[i].id].ord.sinks.contains(Match { kind: c2[k].ord.sources[i].kind, id: k }),
{
    let s = c[k].ord.sources[i];
    assert(c.contains_key(s.id));
    assert(c[s.id].ord.sinks.contains(Match { kind: s.kind, id: k }));
}

/// Recording a reader on a node keeps a typed table typed.
proof fn lemma_add_sink_typed(c: Map<u64, NodeView>, a: u64, m: Match)
    requires
        c.contains_key(a),
        edges_typed(c),
    ensures
        keeps_typed(c, update_ord(c, a, with_sink(c[a].ord, m))),
        edges_typed(update_ord(c, a, with_sink(c[a].ord, m))),
        update_ord(c, a, with_sink(c[a].ord, m))[a].ord.sinks.contains(m),
{
    let o = c[a].ord;
    let c2 = update_ord(c, a, with_sink(o, m));
    if !o.sinks.contains(m) {
        assert(o.sinks.push(m)[o.sinks.len() as int] == m);
    }
    assert forall|k: u64| #[trigger] c.contains_key(k) implies c2.contains_key(k) && c2[k].ord.id == c[k].ord.id
        && c2[k].ord.sources == c[k].ord.sources && forall|x: Match| c[k].ord.sinks.contains(x) ==> #[trigger] c2[k].ord.sinks.contains(x) by {
        if k == a {
            assert forall|x: Match| c[k].ord.sinks.contains(x) implies #[trigger] c2[k].ord.sinks.contains(x) by {
                if !o.sinks.contains(m) {
                    let j = choose|j: int| 0 <= j < o.sinks.len() && o.sinks[j] == x;
                    assert(o.sinks.push(m)[j] == x);
                }
            }
        }
    }
    assert forall|k: u64, i: int|
        #![trigger c2.contains_key(k), c2[k].ord.sources[i]]
        c2.contains_key(k) && 0 <= i < c2[k].ord.sources.len() implies {
            let s = c2[k].ord.sources[i];
            &&& c2.contains_key(s.id)
            &&& c2[s.id].ord.id.kind == s.kind
            &&& c2[s.id].ord.sinks.contains(Match { kind: s.kind, id: k })
        } by {
        assert(c.contains_key(k));
        lemma_typed_kept(c, c2, k, i);
    }
}

/// Building the node of a stored expression keeps a typed table typed and
/// built from the stored expressions, and keeps its nodes.
pub proof fn lemma_order_node_typed(old: Map<u64, InlinedExpression>, c: Map<u64, NodeView>, e: InlinedExpression, fuel: nat)
    requires
        keyed(old),
        plans_typed(old),
        old.contains_key(inlined_hash(e)),
        old[inlined_hash(e)] == e,
        edges_typed(c),
        kinds_match(old, c),
        order_node(old, c, e, fuel) is Some,
    ensures
        edges_typed(order_node(old, c, e, fuel)->Some_0),
        kinds_match(old, order_node(old, c, e, fuel)->Some_0),
        keeps_typed(c, order_node(old, c, e, fuel)->Some_0),
        order_node(old, c, e, fuel)->Some_0.contains_key(inlined_hash(e)),
    decreases fuel, 1nat, 0nat,
{
    let id = inlined_hash(e);
    if c.contains_key(id) {
        assert(keeps_typed(c, c));
    } else {
        let (kind, args) = spec_plan(old, e)->Some_0;
        assert(old.contains_key(id));
        assert forall|i: int| 0 <= i < args.len() implies old.contains_key(#[trigger] args[i].0) && node_kind(
            old,
            args[i].0,
        ) == args[i].1 && args[i].2 == args[i].1 by {
            assert(spec_plan(old, old[id])->Some_0.1[i] == args[i]);
        }
        lemma_order_args_typed(old, c, id, args, (fuel - 1) as nat);
        let c1 = order_args(old, c, id, args, (fuel - 1) as nat)->Some_0;
        if !c1.contains_key(id) {
            let n = spec_node(e, id, kind, args);
            let c2 = c1.insert(id, n);
            assert forall|k: u64| #[trigger] c1.contains_key(k) implies c2.contains_key(k) && c2[k].ord.id == c1[k].ord.id
                && c2[k].ord.sources == c1[k].ord.sources && forall|m: Match| c1[k].ord.sinks.contains(m) ==> #[trigger] c2[k].ord.sinks.contains(m) by {
                assert(c2[k] == c1[k]);
            }
            assert forall|k: u64, i: int|
                #![trigger c2.contains_key(k), c2[k].ord.sources[i]]
                c2.contains_key(k) && 0 <= i < c2[k].ord.sources.len() implies {
                    let s = c2[k].ord.sources[i];
                    &&& c2.contains_key(s.id)
                    &&& c2[s.id].ord.id.kind == s.kind
                    &&& c2[s.id].ord.sinks.contains(Match { kind: s.kind, id: k })
                } by {
                if k == id {
                    assert(c2[k] == n);
                    let (a, sk, t) = args[i];
                    assert(n.ord.sources[i] == Match { kind: sk, id: a });
                    assert(spec_plan(old, old[id])->Some_0.1[i] == args[i]);
                    assert(old.contains_key(id) && 0 <= i < spec_plan(old, old[id])->Some_0.1.len());
                    assert(c1.contains_key(a) && c1[a].ord.sinks.contains(Match { kind: t, id }));
                    assert(c1[a].ord.id.kind == node_kind(old, a));
                    assert(c2[a] == c1[a]);
                } else {
                    assert(c2[k] == c1[k]);
                    let s = c1[k].ord.sources[i];
                    assert(c1.contains_key(s.id));
                    assert(c2[s.id] == c1[s.id]);
                }
            }
            assert forall|k: u64| #[trigger] c2.contains_key(k) implies old.contains_key(k) && c2[k].ord.id.kind == node_kind(
                old,
                k,
            ) by {
                if k != id {
                    assert(c1.contains_key(k));
                }
            }
            lemma_keeps_typed_trans(c, c1, c2);
        }
    }
}

/// Building the nodes of a node's arguments keeps a typed table typed and
/// built from the stored expressions; each argument is then there with the
/// type the node reads it at, and records the node at that type.
pub proof fn lemma_order_args_typed(
    old: Map<u64, InlinedExpression>,
    c: Map<u64, NodeView>,
    id: u64,
    args: Seq<(u64, TypeData, TypeData)>,
    fuel: nat,
)
    requires
        keyed(old),
        plans_typed(old),
        forall|i: int|
            0 <= i < args.len() ==> old.contains_key(#[trigger] args[i].0) && node_kind(old, args[i].0) == args[i].1
                && args[i].2 == args[i].1,
        edges_typed(c),
        kinds_match(old, c),
        order_args(old, c, id, args, fuel) is Some,
    ensures
        edges_typed(order_args(old, c, id, args, fuel)->Some_0),
        kinds_match(old, order_args(old, c, id, args, fuel)->Some_0),
        keeps_typed(c, order_args(old, c, id, args, fuel)->Some_0),
        forall|i: int|
            0 <= i < args.len() ==> order_args(old, c, id, args, fuel)->Some_0.contains_key(#[trigger] args[i].0)
                && order_args(old, c, id, args, fuel)->Some_0[args[i].0].ord.sinks.contains(Match { kind: args[i].2, id }),
    decreases fuel, 2nat, args.len(),
{
    if args.len() == 0 {
        assert(keeps_typed(c, c));
    } else {
        let (a, _, t) = args[0];
        assert(old.contains_key(args[0].0));
        assert(inlined_hash(old[a]) == a);
        lemma_order_node_typed(old, c, old[a], fuel);
        let c1 = order_node(old, c, old[a], fuel)->Some_0;
        let m = Match { kind: t, id };
        lemma_add_sink_typed(c1, a, m);
        let c2 = update_ord(c1, a, with_sink(c1[a].ord, m));
        assert forall|k: u64| #[trigger] c2.contains_key(k) implies old.contains_key(k) && c2[k].ord.id.kind == node_kind(
            old,
            k,
        ) by {
            assert(c1.contains_key(k));
        }
        assert forall|i: int| 0 <= i < args.drop_first().len() implies old.contains_key(#[trigger] args.drop_first()[i].0)
            && node_kind(old, args.drop_first()[i].0) == args.drop_first()[i].1 && args.drop_first()[i].2
            == args.drop_first()[i].1 by {
            assert(args.drop_first()[i] == args[i + 1]);
        }
        lemma_order_args_typed(old, c2, id, args.drop_first(), fuel);
        let c3 = order_args(old, c2, id, args.drop_first(), fuel)->Some_0;
        lemma_keeps_typed_trans(c, c1, c2);
        lemma_keeps_typed_trans(c, c2, c3);
        assert forall|i: int| 0 <= i < args.len() implies c3.contains_key(#[trigger] args[i].0)
            && c3[args[i].0].ord.sinks.contains(Match { kind: args[i].2, id }) by {
            if i == 0 {
                assert(c2.contains_key(a));
                assert(c2[a].ord.sinks.contains(m));
            } else {
                assert(args.drop_first()[i - 1] == args[i]);
            }
        }
    }
}

} // verus!
