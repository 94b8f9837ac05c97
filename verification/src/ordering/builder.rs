//! Building the dependency graph of an inlined program: every expression
//! becomes a node with its sources, and each source learns of the node
//! that reads it.
use vstd::prelude::*;

use crate::inliner::coll::InlinedView;
use crate::inliner::expr::{inlined_hash, inlined_type};
use crate::inliner::{InlinedCollection, InlinedExpression};
use crate::parser_output::{Operation, TypeData};

use super::coll::{update_ord, OrderingCollection};
use super::expr::{ConstantValue, NodeView, Op, OrderedExpression, Shape, StdKind, StdLibraryFunc};
use super::matcher::Match;
use super::ord::{with_sink, OrdType, OrdView};
use super::laws::{edges_recorded, keeps_nodes, lemma_add_sink_edges, lemma_keeps_trans, lemma_order_node_edges};

verus! {

/// How deeply the graph builder follows arguments: as many levels as a
/// `u64` counts, which no table of stored expressions reaches.
pub const ORDER_DEPTH: u64 = 0xffff_ffff_ffff_ffff;

/// For an operation on operands of the given types: the type of the node,
/// the types its two sources are recorded at, and the types at which the
/// operands record the node as their sink.
pub open spec fn op_shape(op: Operation, ka: TypeData, kb: TypeData) -> Option<
    (TypeData, TypeData, TypeData, TypeData, TypeData),
> {
    let i = TypeData::Int;
    let b = TypeData::Bool;
    let ci = TypeData::CollectionOfInt;
    let cb = TypeData::CollectionOfBool;
    match op {
        Operation::Add | Operation::Sub | Operation::Mul | Operation::Div => match (ka, kb) {
            (TypeData::Int, TypeData::Int) => Some((i, i, i, i, i)),
            (TypeData::Int, TypeData::CollectionOfInt) => Some((ci, i, ci, i, ci)),
            (TypeData::CollectionOfInt, TypeData::Int) => Some((ci, ci, i, ci, i)),
            _ => None,
        },
        Operation::GreaterThan | Operation::LessThan | Operation::GreaterThanEqual | Operation::LessThanEqual => match (ka, kb) {
            (TypeData::Int, TypeData::Int) => Some((b, i, i, i, i)),
            (TypeData::Int, TypeData::CollectionOfInt) => Some((cb, i, ci, i, ci)),
            (TypeData::CollectionOfInt, TypeData::Int) => Some((cb, ci, i, ci, i)),
            _ => None,
        },
        Operation::Equal | Operation::NotEqual => match (ka, kb) {
            (TypeData::Int, TypeData::Int) => Some((b, i, i, i, i)),
            (TypeData::Int, TypeData::CollectionOfInt) => Some((cb, i, ci, i, ci)),
            (TypeData::CollectionOfInt, TypeData::Int) => Some((cb, ci, i, ci, i)),
            (TypeData::Bool, TypeData::Bool) => Some((b, b, b, b, b)),
            (TypeData::Bool, TypeData::CollectionOfBool) => Some((cb, b, cb, b, cb)),
            (TypeData::CollectionOfBool, TypeData::Bool) => Some((cb, cb, b, cb, b)),
            _ => None,
        },
        Operation::And | Operation::Or => match (ka, kb) {
            (TypeData::Bool, TypeData::Bool) => Some((b, cb, b, b, b)),
            (TypeData::Bool, TypeData::CollectionOfBool) => Some((cb, cb, b, b, cb)),
            (TypeData::CollectionOfBool, TypeData::Bool) => Some((cb, cb, b, cb, b)),
            _ => None,
        },
    }
}

/// What a node built from an inlined expression computes.
pub open spec fn shape_of(e: InlinedExpression) -> Shape {
    match e {
        InlinedExpression::D6(_) => Shape::StdLib(StdKind::D6),
        InlinedExpression::D3(_) => Shape::StdLib(StdKind::D3),
        InlinedExpression::Filter(_, _) => Shape::StdLib(StdKind::Filter),
        InlinedExpression::Count(_) => Shape::StdLib(StdKind::Count),
        InlinedExpression::Len(_) => Shape::StdLib(StdKind::Len),
        InlinedExpression::Join(_, _) => Shape::StdLib(StdKind::Join),
        InlinedExpression::Sum(_) => Shape::StdLib(StdKind::Sum),
        InlinedExpression::Max(_) => Shape::StdLib(StdKind::Max),
        InlinedExpression::Min(_) => Shape::StdLib(StdKind::Min),
        InlinedExpression::Operation(_, op, _, _) => Shape::Op(op),
        InlinedExpression::ConstantInt(i) => Shape::Int(i),
        InlinedExpression::ConstantBool(b) => Shape::Bool(b),
    }
}

/// The type of the node built from an inlined expression, and its
/// arguments: each one's hash, the type it is read at, and the type at
/// which it records the node as its sink. An operation reads the types of
/// its operands from the inlined table; where that fails, or the
/// operation has no node for those types, there is no plan.
pub open spec fn spec_plan(old: Map<u64, InlinedExpression>, e: InlinedExpression) -> Option<
    (TypeData, Seq<(u64, TypeData, TypeData)>),
> {
    let i = TypeData::Int;
    let b = TypeData::Bool;
    let ci = TypeData::CollectionOfInt;
    let cb = TypeData::CollectionOfBool;
    match e {
        InlinedExpression::D6(a) | InlinedExpression::D3(a) => Some((ci, seq![(a, i, i)])),
        InlinedExpression::Sum(a) | InlinedExpression::Max(a) | InlinedExpression::Min(a) => Some((i, seq![(a, ci, ci)])),
        InlinedExpression::Count(a) => Some((cb, seq![(a, cb, cb)])),
        InlinedExpression::Len(a) => Some((ci, seq![(a, ci, ci)])),
        InlinedExpression::Filter(x, y) => Some((ci, seq![(x, cb, cb), (y, ci, ci)])),
        InlinedExpression::Join(x, y) => Some((ci, seq![(x, ci, ci), (y, ci, ci)])),
        InlinedExpression::ConstantInt(_) => Some((i, Seq::empty())),
        InlinedExpression::ConstantBool(_) => Some((b, Seq::empty())),
        InlinedExpression::Operation(x, op, y, _) => if old.contains_key(x) && old.contains_key(y) {
            match op_shape(op, inlined_type(old[x]), inlined_type(old[y])) {
                Some((k, sa, sb, ta, tb)) => Some((k, seq![(x, sa, ta), (y, sb, tb)])),
                None => None,
            }
        } else {
            None
        },
    }
}

/// The node built from an inlined expression with hash `id`.
pub open spec fn spec_node(e: InlinedExpression, id: u64, kind: TypeData, args: Seq<(u64, TypeData, TypeData)>) -> NodeView {
    NodeView {
        shape: shape_of(e),
        ord: OrdView {
            id: Match { kind, id },
            sources: args.map_values(|a: (u64, TypeData, TypeData)| Match { kind: a.1, id: a.0 }),
            sinks: Seq::empty(),
        },
    }
}

/// Adds the node of an inlined expression, and first those of its
/// arguments, to the table `c`; nothing is built again that is there
/// already. `None` where an argument is not in the inlined table, an
/// operation has no plan, or `fuel` runs out.
pub open spec fn order_node(
    old: Map<u64, InlinedExpression>,
    c: Map<u64, NodeView>,
    e: InlinedExpression,
    fuel: nat,
) -> Option<Map<u64, NodeView>>
    decreases fuel, 1nat, 0nat,
{
    let id = inlined_hash(e);
    if c.contains_key(id) {
        Some(c)
    } else if fuel == 0 {
        None
    } else {
        match spec_plan(old, e) {
            None => None,
            Some((kind, args)) => match order_args(old, c, id, args, (fuel - 1) as nat) {
                None => None,
                Some(c1) => Some(
                    if c1.contains_key(id) {
                        c1
                    } else {
                        c1.insert(id, spec_node(e, id, kind, args))
                    },
                ),
            },
        }
    }
}

/// Adds the nodes of the arguments, in order, each recording the node
/// `id` as its sink.
pub open spec fn order_args(
    old: Map<u64, InlinedExpression>,
    c: Map<u64, NodeView>,
    id: u64,
    args: Seq<(u64, TypeData, TypeData)>,
    fuel: nat,
) -> Option<Map<u64, NodeView>>
    decreases fuel, 2nat, args.len(),
{
    if args.len() == 0 {
        Some(c)
    } else {
        let (a, _, t) = args[0];
        if !old.contains_key(a) {
            None
        } else {
            match order_node(old, c, old[a], fuel) {
                None => None,
                Some(c1) => if !c1.contains_key(a) {
                    None
                } else {
                    order_args(
                        old,
                        update_ord(c1, a, with_sink(c1[a].ord, Match { kind: t, id })),
                        id,
                        args.drop_first(),
                        fuel,
                    )
                },
            }
        }
    }
}

/// The types of an operation's node and edges, for operands of the given
/// types.
fn op_shape_exec(op: Operation, ka: TypeData, kb: TypeData) -> (r: Option<
    (TypeData, TypeData, TypeData, TypeData, TypeData),
>)
    ensures
        r == op_shape(op, ka, kb),
{
    let i = TypeData::Int;
    let b = TypeData::Bool;
    let ci = TypeData::CollectionOfInt;
    let cb = TypeData::CollectionOfBool;
    match op {
        Operation::Add | Operation::Sub | Operation::Mul | Operation::Div => match (ka, kb) {
            (TypeData::Int, TypeData::Int) => Some((i, i, i, i, i)),
            (TypeData::Int, TypeData::CollectionOfInt) => Some((ci, i, ci, i, ci)),
            (TypeData::CollectionOfInt, TypeData::Int) => Some((ci, ci, i, ci, i)),
            _ => None,
        },
        Operation::GreaterThan | Operation::LessThan | Operation::GreaterThanEqual | Operation::LessThanEqual => match (ka, kb) {
            (TypeData::Int, TypeData::Int) => Some((b, i, i, i, i)),
            (TypeData::Int, TypeData::CollectionOfInt) => Some((cb, i, ci, i, ci)),
            (TypeData::CollectionOfInt, TypeData::Int) => Some((cb, ci, i, ci, i)),
            _ => None,
        },
        Operation::Equal | Operation::NotEqual => match (ka, kb) {
            (TypeData::Int, TypeData::Int) => Some((b, i, i, i, i)),
            (TypeData::Int, TypeData::CollectionOfInt) => Some((cb, i, ci, i, ci)),
            (TypeData::CollectionOfInt, TypeData::Int) => Some((cb, ci, i, ci, i)),
            (TypeData::Bool, TypeData::Bool) => Some((b, b, b, b, b)),
            (TypeData::Bool, TypeData::CollectionOfBool) => Some((cb, b, cb, b, cb)),
            (TypeData::CollectionOfBool, TypeData::Bool) => Some((cb, cb, b, cb, b)),
            _ => None,
        },
        Operation::And | Operation::Or => match (ka, kb) {
            (TypeData::Bool, TypeData::Bool) => Some((b, cb, b, b, b)),
            (TypeData::Bool, TypeData::CollectionOfBool) => Some((cb, cb, b, b, cb)),
            (TypeData::CollectionOfBool, TypeData::Bool) => Some((cb, cb, b, cb, b)),
            _ => None,
        },
    }
}

/// Computes `spec_plan`.
fn plan(old: &InlinedCollection, e: &InlinedExpression) -> (r: Option<(TypeData, Vec<(u64, TypeData, TypeData)>)>)
    ensures
        match spec_plan(old@.exprs, *e) {
            Some((k, args)) => r matches Some((k2, v)) && k2 == k && v@ == args,
            None => r is None,
        },
{
    let i = TypeData::Int;
    let b = TypeData::Bool;
    let ci = TypeData::CollectionOfInt;
    let cb = TypeData::CollectionOfBool;
    let r = match e {
        InlinedExpression::D6(a) | InlinedExpression::D3(a) => Some((ci, vec![(*a, i, i)])),
        InlinedExpression::Sum(a) | InlinedExpression::Max(a) | InlinedExpression::Min(a) => Some((i, vec![(*a, ci, ci)])),
        InlinedExpression::Count(a) => Some((cb, vec![(*a, cb, cb)])),
        InlinedExpression::Len(a) => Some((ci, vec![(*a, ci, ci)])),
        InlinedExpression::Filter(x, y) => Some((ci, vec![(*x, cb, cb), (*y, ci, ci)])),
        InlinedExpression::Join(x, y) => Some((ci, vec![(*x, ci, ci), (*y, ci, ci)])),
        InlinedExpression::ConstantInt(_) => Some((i, Vec::new())),
        InlinedExpression::ConstantBool(_) => Some((b, Vec::new())),
        InlinedExpression::Operation(x, op, y, _) => match (old.get_expr(x), old.get_expr(y)) {
            (Option::Some(ex), Option::Some(ey)) => match op_shape_exec(*op, ex.get_type(), ey.get_type()) {
                Option::Some((k, sa, sb, ta, tb)) => Some((k, vec![(*x, sa, ta), (*y, sb, tb)])),
                Option::None => None,
            },
            _ => None,
        },
    };
    proof {
        if r is Some {
            let a1 = spec_plan(old@.exprs, *e)->Some_0.1;
            assert(r->Some_0.1@ =~= a1);
        }
    }
    r
}

/// The node an inlined expression becomes, with ordering data `o`.
fn make_node(e: &InlinedExpression, o: OrdType) -> (r: OrderedExpression)
    ensures
        r@ == (NodeView { shape: shape_of(*e), ord: o@ }),
{
    match e {
        InlinedExpression::D6(_) => OrderedExpression::StdLib(StdLibraryFunc::D6(o)),
        InlinedExpression::D3(_) => OrderedExpression::StdLib(StdLibraryFunc::D3(o)),
        InlinedExpression::Filter(_, _) => OrderedExpression::StdLib(StdLibraryFunc::Filter(o)),
        InlinedExpression::Count(_) => OrderedExpression::StdLib(StdLibraryFunc::Count(o)),
        InlinedExpression::Len(_) => OrderedExpression::StdLib(StdLibraryFunc::Len(o)),
        InlinedExpression::Join(_, _) => OrderedExpression::StdLib(StdLibraryFunc::Join(o)),
        InlinedExpression::Sum(_) => OrderedExpression::StdLib(StdLibraryFunc::Sum(o)),
        InlinedExpression::Max(_) => OrderedExpression::StdLib(StdLibraryFunc::Max(o)),
        InlinedExpression::Min(_) => OrderedExpression::StdLib(StdLibraryFunc::Min(o)),
        InlinedExpression::Operation(_, op, _, _) => OrderedExpression::Op(Op::build(*op, o)),
        InlinedExpression::ConstantInt(i) => OrderedExpression::Constant(ConstantValue::Int(*i, o)),
        InlinedExpression::ConstantBool(b) => OrderedExpression::Constant(ConstantValue::Bool(*b, o)),
    }
}

/// Builds the node of `expr` (and of its arguments) into `new_coll`.
fn build(expr: &InlinedExpression, old_coll: &InlinedCollection, new_coll: &mut OrderingCollection, fuel: u64) -> (r: bool)
    ensures
        match order_node(old_coll@.exprs, old(new_coll)@, *expr, fuel as nat) {
            Some(c) => r && final(new_coll)@ == c,
            None => !r,
        },
        edges_recorded(old(new_coll)@) ==> edges_recorded(final(new_coll)@) && keeps_nodes(old(new_coll)@, final(new_coll)@),
    decreases fuel, 1nat, 0nat,
{
    proof {
        assert(keeps_nodes(new_coll@, new_coll@));
        if order_node(old_coll@.exprs, new_coll@, *expr, fuel as nat) is Some && edges_recorded(new_coll@) {
            lemma_order_node_edges(old_coll@.exprs, new_coll@, *expr, fuel as nat);
        }
    }
    let self_id = expr.get_hash();
    if new_coll.contains(&self_id) {
        return true;
    }
    if fuel == 0 {
        return false;
    }
    let (kind, args) = match plan(old_coll, expr) {
        Option::Some(p) => p,
        Option::None => return false,
    };
    if !build_args(old_coll, new_coll, self_id, &args, fuel - 1) {
        return false;
    }
    let mut sources: Vec<Match> = Vec::new();
    let n = args.len();
    for j in 0..n
        invariant
            n == args@.len(),
            sources@ == args@.take(j as int).map_values(|a: (u64, TypeData, TypeData)| Match { kind: a.1, id: a.0 }),
    {
        sources.push(Match::new(args[j].0, args[j].1));
        assert(sources@ =~= args@.take(j + 1).map_values(|a: (u64, TypeData, TypeData)| Match { kind: a.1, id: a.0 }));
    }
    assert(args@.take(n as int) =~= args@);
    let item = make_node(expr, OrdType::new(Match::new(self_id, kind), sources));
    new_coll.insert(item);
    true
}

/// Builds the nodes of the arguments, each recording the node `id` as its
/// sink.
fn build_args(
    old_coll: &InlinedCollection,
    new_coll: &mut OrderingCollection,
    id: u64,
    args: &Vec<(u64, TypeData, TypeData)>,
    fuel: u64,
) -> (r: bool)
    ensures
        match order_args(old_coll@.exprs, old(new_coll)@, id, args@, fuel as nat) {
            Some(c) => r && final(new_coll)@ == c,
            None => !r,
        },
        edges_recorded(old(new_coll)@) ==> edges_recorded(final(new_coll)@) && keeps_nodes(old(new_coll)@, final(new_coll)@),
    decreases fuel, 2nat, args@.len(),
{
    let n = args.len();
    let mut j: usize = 0;
    let ghost start = new_coll@;
    assert(args@.skip(0) =~= args@);
    assert(keeps_nodes(start, start));
    while j < n
        invariant
            n == args@.len(),
            j <= n,
            start == old(new_coll)@,
            edges_recorded(start) ==> edges_recorded(new_coll@) && keeps_nodes(start, new_coll@),
            order_args(old_coll@.exprs, old(new_coll)@, id, args@, fuel as nat) == order_args(
                old_coll@.exprs,
                new_coll@,
                id,
                args@.skip(j as int),
                fuel as nat,
            ),
        decreases n - j,
    {
        let ghost rest = args@.skip(j as int);
        assert(rest[0] == args@[j as int]);
        assert(rest.drop_first() =~= args@.skip(j + 1));
        let (a, _, t) = args[j];
        let ae = match old_coll.get_expr(&a) {
            Option::Some(e) => e,
            Option::None => return false,
        };
        let ghost before = new_coll@;
        if !build_node_at(ae, old_coll, new_coll, fuel) {
            proof {
                if edges_recorded(start) {
                    lemma_keeps_trans(start, before, new_coll@);
                }
            }
            return false;
        }
        proof {
            if edges_recorded(start) {
                lemma_keeps_trans(start, before, new_coll@);
            }
        }
        if !new_coll.contains(&a) {
            return false;
        }
        let ghost mid = new_coll@;
        new_coll.set_expr_sink(&a, id, t);
        proof {
            if edges_recorded(start) {
                lemma_add_sink_edges(mid, a, Match { kind: t, id });
                lemma_keeps_trans(start, mid, new_coll@);
            }
        }
        j = j + 1;
    }
    assert(args@.skip(n as int) =~= Seq::<(u64, TypeData, TypeData)>::empty());
    true
}

/// `build`, entered from the arguments of a node at the same fuel.
fn build_node_at(expr: &InlinedExpression, old_coll: &InlinedCollection, new_coll: &mut OrderingCollection, fuel: u64) -> (r: bool)
    ensures
        match order_node(old_coll@.exprs, old(new_coll)@, *expr, fuel as nat) {
            Some(c) => r && final(new_coll)@ == c,
            None => !r,
        },
        edges_recorded(old(new_coll)@) ==> edges_recorded(final(new_coll)@) && keeps_nodes(old(new_coll)@, final(new_coll)@),
    decreases fuel, 1nat, 1nat,
{
    build(expr, old_coll, new_coll, fuel)
}

impl OrderedExpression {
    /// Converts an inlined expression into ordered expressions in
    /// `new_coll`: the expression's node, after those of its arguments,
    /// each argument recording the node as a sink. Returns whether it
    /// succeeded. Whether it succeeds or not, a table that recorded every
    /// edge still does, and keeps every node it had.
    pub fn new(expr: &InlinedExpression, old_coll: &InlinedCollection, new_coll: &mut OrderingCollection) -> (r: bool)
        ensures
            match order_node(old_coll@.exprs, old(new_coll)@, *expr, ORDER_DEPTH as nat) {
                Some(c) => r && final(new_coll)@ == c,
                None => !r,
            },
            edges_recorded(old(new_coll)@) ==> edges_recorded(final(new_coll)@) && keeps_nodes(old(new_coll)@, final(new_coll)@),
    {
        build(expr, old_coll, new_coll, ORDER_DEPTH)
    }
}

} // verus!
