//! The collections of ordered expressions: the one being built, and the
//! finished one that ends in the node reading the program's result.
use std::collections::BTreeMap;
use vstd::prelude::*;
use vstd::std_specs::iter::IteratorSpec;

use crate::inliner::coll::InlinedView;
use crate::inliner::expr::inlined_hash;
use crate::inliner::InlinedCollection;
use crate::parser_output::TypeData;

use super::builder::{order_node, ORDER_DEPTH};
use super::expr::{NodeView, OrderedExpression, Shape};
use super::matcher::{Match, MatchTrait};
use super::ord::{swap_source, with_sink, without_sink, OrdTrait, OrdType, OrdView};

verus! {

broadcast use vstd::std_specs::btree::group_btree_axioms;

/// The values of a table of ordered expressions.
pub open spec fn view_nodes(m: Map<u64, OrderedExpression>) -> Map<u64, NodeView> {
    m.map_values(|e: OrderedExpression| e@)
}

/// The table with the node at `k` given other ordering data.
pub open spec fn update_ord(c: Map<u64, NodeView>, k: u64, o: OrdView) -> Map<u64, NodeView> {
    c.insert(k, NodeView { shape: c[k].shape, ord: o })
}

/// Every natural number below `n` is in `s`: `s` has at least `n`
/// elements.
proof fn lemma_prefix_len(s: Set<u64>, n: nat)
    requires
        s.finite(),
        n <= 0x1_0000_0000_0000_0000,
        forall|j: u64| (j as nat) < n ==> s.contains(j),
    ensures
        s.len() >= n,
    decreases n,
{
    if n > 0 {
        let last = (n - 1) as u64;
        assert(s.contains(last));
        let t = s.remove(last);
        assert forall|j: u64| (j as nat) < n - 1 implies t.contains(j) by {
            assert(s.contains(j));
        }
        lemma_prefix_len(t, (n - 1) as nat);
    }
}

/// The smallest identifier that is not a key.
fn first_free(data: &BTreeMap<u64, OrderedExpression>) -> (r: u64)
    ensures
        !data@.contains_key(r),
        forall|j: u64| j < r ==> data@.contains_key(j),
{
    let n = data.len();
    let mut i: u64 = 0;
    loop
        invariant
            n == data@.len(),
            forall|j: u64| j < i ==> data@.contains_key(j),
            (i as int) <= n,
        decreases n - i,
    {
        if !data.contains_key(&i) {
            return i;
        }
        proof {
            if (i as int) == n {
                lemma_prefix_len(data@.dom(), (i + 1) as nat);
            }
        }
        i = i + 1;
    }
}

/// OrderingCollection is used to build the `OrderedCollection`.
pub struct OrderingCollection {
    data: BTreeMap<u64, OrderedExpression>,
}

impl View for OrderingCollection {
    type V = Map<u64, NodeView>;

    closed spec fn view(&self) -> Map<u64, NodeView> {
        view_nodes(self.data@)
    }
}

impl OrderingCollection {
    /// An empty collection.
    pub fn new() -> (r: OrderingCollection)
        ensures
            r@ == Map::<u64, NodeView>::empty(),
    {
        let r = OrderingCollection { data: BTreeMap::new() };
        assert(r@ =~= Map::<u64, NodeView>::empty());
        r
    }

    /// Whether an expression with this identifier is in the collection.
    pub fn contains(&self, id: &u64) -> (r: bool)
        ensures
            r == self@.contains_key(*id),
    {
        self.data.contains_key(id)
    }

    /// Inserts an expression under its own identifier, unless one is there.
    pub fn insert(&mut self, arg: OrderedExpression)
        ensures
            final(self)@ == if old(self)@.contains_key(arg@.ord.id.id) {
                old(self)@
            } else {
                old(self)@.insert(arg@.ord.id.id, arg@)
            },
    {
        let own_id = arg.get_id();
        if !self.contains(&own_id) {
            let ghost v = arg@;
            self.data.insert(own_id, arg);
            assert(self@ =~= old(self)@.insert(own_id, v));
        }
    }

    /// The expression with this identifier.
    pub fn get_expr(&self, arg: &u64) -> (r: Option<&OrderedExpression>)
        ensures
            match r {
                Some(e) => self@.contains_key(*arg) && self@[*arg] == e@,
                None => !self@.contains_key(*arg),
            },
    {
        self.data.get(arg)
    }

    /// Tells an expression that it is read by the expression
    /// `sink_expr_id`, at type `sink_expr_expected_type`.
    pub fn set_expr_sink(&mut self, expr_to_modify: &u64, sink_expr_id: u64, sink_expr_expected_type: TypeData)
        requires
            old(self)@.contains_key(*expr_to_modify),
        ensures
            final(self)@ == update_ord(
                old(self)@,
                *expr_to_modify,
                with_sink(
                    old(self)@[*expr_to_modify].ord,
                    Match { kind: sink_expr_expected_type, id: sink_expr_id },
                ),
            ),
    {
        let m = Match::new(sink_expr_id, sink_expr_expected_type);
        match self.data.remove(expr_to_modify) {
            Option::Some(mut expr) => {
                expr.add_sink(&m);
                let ghost v = expr@;
                self.data.insert(*expr_to_modify, expr);
                assert(self@ =~= update_ord(old(self)@, *expr_to_modify, v.ord));
            },
            Option::None => {},
        }
    }

    /// The smallest identifier not in use.
    pub fn next_free_id(&self) -> (r: u64)
        ensures
            !self@.contains_key(r),
            forall|j: u64| j < r ==> self@.contains_key(j),
    {
        first_free(&self.data)
    }
}

} // verus!

verus! {

/// The keys of a table, in increasing order.
pub fn sorted_keys<V>(data: &BTreeMap<u64, V>) -> (r: Vec<u64>)
    ensures
        r@.to_set() == data@.dom(),
        forall|i: int, j: int| 0 <= i < j < r@.len() ==> r@[i] < r@[j],
{
    let mut v: Vec<u64> = Vec::new();
    let keys = data.keys();
    let ghost all = keys.remaining();
    for k in it: keys
        invariant
            it.seq() == all,
            v@ == all.take(it.index() as int).unref(),
    {
        v.push(*k);
        assert(v@ =~= all.take(it.index() + 1).unref());
    }
    assert(all.take(all.len() as int) =~= all);
    assert(v@ =~= all.unref());
    proof {
        lemma_increasing_keys(all);
    }
    v
}

/// The keys a table yields come in increasing order.
proof fn lemma_increasing_keys(all: Seq<&u64>)
    requires
        vstd::std_specs::btree::increasing_seq(all),
    ensures
        forall|i: int, j: int| 0 <= i < j < all.len() ==> *all[i] < *all[j],
{
    broadcast use vstd::laws_cmp::group_laws_cmp;
    assert(vstd::laws_cmp::obeys_cmp::<&u64>());
    vstd::std_specs::btree::axiom_increasing_seq_meaning(all);
    assert forall|i: int, j: int| 0 <= i < j < all.len() implies *all[i] < *all[j] by {
        assert(vstd::std_specs::cmp::OrdSpec::cmp_spec(&all[i], &all[j]) is Less);
    }
}

/// The value of an ordered collection: its nodes, and the identifier of
/// the final node, which reads the program's result.
pub struct OrderedView {
    pub nodes: Map<u64, NodeView>,
    pub ret: u64,
}

/// `f` is the smallest identifier that is not a key.
pub open spec fn is_first_free(c: Map<u64, NodeView>, f: u64) -> bool {
    !c.contains_key(f) && forall|j: u64| j < f ==> c.contains_key(j)
}

/// There is one smallest free identifier.
pub proof fn lemma_first_free_unique(c: Map<u64, NodeView>, a: u64, b: u64)
    requires
        is_first_free(c, a),
        is_first_free(c, b),
    ensures
        a == b,
{
    if a < b {
        assert(c.contains_key(a));
    } else if b < a {
        assert(c.contains_key(b));
    }
}

/// The final node `f`, reading the result `k` of type `t`.
pub open spec fn final_node(f: u64, k: u64, t: TypeData) -> NodeView {
    NodeView {
        shape: Shape::Final,
        ord: OrdView { id: Match { kind: t, id: f }, sources: seq![Match { kind: t, id: k }], sinks: Seq::empty() },
    }
}

/// The ordered collection of an inlined one: the graph of its result,
/// then a final node, under the smallest free identifier, that reads the
/// result at the result's type. `None` where there is no result, it is not
/// stored, or its graph cannot be built.
pub open spec fn spec_ordered(old: InlinedView) -> Option<OrderedView> {
    match old.ret {
        None => None,
        Some(k) => if !old.exprs.contains_key(k) {
            None
        } else {
            match order_node(old.exprs, Map::empty(), old.exprs[k], ORDER_DEPTH as nat) {
                None => None,
                Some(c) => if !c.contains_key(k) {
                    None
                } else {
                    let f = choose|f: u64| is_first_free(c, f);
                    Some(OrderedView { nodes: c.insert(f, final_node(f, k, c[k].ord.id.kind)), ret: f })
                },
            }
        },
    }
}

/// OrderedCollection is the read-only collection of expressions, ending
/// in the node that reads the program's result.
pub struct OrderedCollection {
    data: BTreeMap<u64, OrderedExpression>,
    ret: u64,
}

impl View for OrderedCollection {
    type V = OrderedView;

    closed spec fn view(&self) -> OrderedView {
        OrderedView { nodes: view_nodes(self.data@), ret: self.ret }
    }
}

impl OrderedCollection {
    /// Builds the ordered collection of an inlined collection.
    pub fn new(old_coll: &InlinedCollection) -> (r: Option<OrderedCollection>)
        ensures
            match spec_ordered(old_coll@) {
                Some(v) => r matches Some(c) && c@ == v,
                None => r is None,
            },
    {
        let mut new_coll = OrderingCollection::new();
        let ret_id = match old_coll.get_return() {
            Option::Some(k) => k,
            Option::None => return None,
        };
        let ret = match old_coll.get_expr(&ret_id) {
            Option::Some(e) => e,
            Option::None => return None,
        };
        if !OrderedExpression::new(ret, old_coll, &mut new_coll) {
            return None;
        }
        let return_type = match new_coll.get_expr(&ret_id) {
            Option::Some(e) => e.get_kind(),
            Option::None => return None,
        };
        let final_id = new_coll.next_free_id();
        proof {
            let c = new_coll@;
            assert(is_first_free(c, final_id));
            let f = choose|f: u64| is_first_free(c, f);
            lemma_first_free_unique(c, f, final_id);
        }
        let end = OrderedExpression::Final(
            OrdType::new(Match::new(final_id, return_type), vec![Match::new(ret_id, return_type)]),
        );
        assert(end@.ord.sources =~= seq![Match { kind: return_type, id: ret_id }]);
        new_coll.insert(end);
        let r = OrderedCollection { data: new_coll.data, ret: final_id };
        assert(r@.nodes =~= new_coll@);
        Some(r)
    }

    /// The identifier of the final node.
    pub fn get_return(&self) -> (r: u64)
        ensures
            r == self@.ret,
    {
        self.ret
    }

    /// The node with this identifier.
    pub fn get_expr(&self, expr: u64) -> (r: Option<&OrderedExpression>)
        ensures
            match r {
                Some(e) => self@.nodes.contains_key(expr) && self@.nodes[expr] == e@,
                None => !self@.nodes.contains_key(expr),
            },
    {
        self.data.get(&expr)
    }

    /// The number of nodes.
    pub fn len(&self) -> (r: usize)
        ensures
            r == self@.nodes.len(),
    {
        proof {
            assert(self@.nodes.dom() =~= self.data@.dom());
        }
        self.data.len()
    }

    /// The identifiers of the nodes, in increasing order.
    pub fn keys(&self) -> (r: Vec<u64>)
        ensures
            r@.to_set() == self@.nodes.dom(),
            forall|i: int, j: int| 0 <= i < j < r@.len() ==> r@[i] < r@[j],
    {
        sorted_keys(&self.data)
    }

    /// The smallest identifier that is neither a key nor in `isnt`.
    pub fn next_free_id(&self, isnt: &Vec<u64>) -> (r: u64)
        requires
            self@.nodes.len() + isnt@.len() < 0xffff_ffff_ffff_ffff,
        ensures
            !self@.nodes.contains_key(r),
            !isnt@.contains(r),
            forall|j: u64| j < r ==> self@.nodes.contains_key(j) || isnt@.contains(j),
    {
        proof {
            assert(self@.nodes.dom() =~= self.data@.dom());
        }
        let bound: u64 = (self.data.len() as u64) + (isnt.len() as u64);
        let mut i: u64 = 0;
        loop
            invariant
                forall|j: u64| j < i ==> self@.nodes.contains_key(j) || isnt@.contains(j),
                i <= bound,
                bound == self@.nodes.len() + isnt@.len(),
                self@.nodes.len() + isnt@.len() < 0xffff_ffff_ffff_ffff,
            decreases bound - i,
        {
            let mut found = false;
            for x in 0..isnt.len()
                invariant
                    found == exists|y: int| 0 <= y < x && isnt@[y] == i,
            {
                if isnt[x] == i {
                    found = true;
                }
            }
            if !self.data.contains_key(&i) && !found {
                return i;
            }
            proof {
                if i == bound {
                    let s = self@.nodes.dom().union(isnt@.to_set());
                    assert forall|j: u64| (j as nat) < (i + 1) as nat implies s.contains(j) by {
                        if j < i {
                        } else {
                            assert(j == i);
                        }
                    }
                    assert(self@.nodes.dom() =~= self.data@.dom());
                    vstd::seq_lib::seq_to_set_is_finite(isnt@);
                    vstd::set_lib::lemma_len_union(self@.nodes.dom(), isnt@.to_set());
                    isnt@.lemma_cardinality_of_set();
                    lemma_prefix_len(s, (i + 1) as nat);
                    assert(false);
                }
            }
            i = i + 1;
        }
    }
}

/// A generalized interface for rewriting the graph: the rewrites need not
/// know which collection they change.
pub trait Graph {
    /// The nodes of the graph.
    spec fn nodes(&self) -> Map<u64, NodeView>;

    /// Inserts a node under its own identifier, which must be free.
    fn insert(&mut self, expr: OrderedExpression)
        requires
            !old(self).nodes().contains_key(expr@.ord.id.id),
        ensures
            final(self).nodes() == old(self).nodes().insert(expr@.ord.id.id, expr@),
    ;

    /// Records `new_sink` as a sink of the node `expr`.
    fn add_sink(&mut self, expr: &Match, new_sink: &Match)
        requires
            old(self).nodes().contains_key(expr.id),
        ensures
            final(self).nodes() == update_ord(
                old(self).nodes(),
                expr.id,
                with_sink(old(self).nodes()[expr.id].ord, *new_sink),
            ),
    ;

    /// Removes the sink `sink_to_remove` from the node `expr`.
    fn remove_sink(&mut self, expr: &Match, sink_to_remove: &Match)
        requires
            old(self).nodes().contains_key(expr.id),
        ensures
            final(self).nodes() == update_ord(
                old(self).nodes(),
                expr.id,
                without_sink(old(self).nodes()[expr.id].ord, *sink_to_remove),
            ),
    ;

    /// For the node `expr`, the source `old_source` becomes `new_source`.
    /// The order of sources is the order of arguments, which stays.
    fn compare_and_swap_source(&mut self, expr: &Match, old_source: &Match, new_source: &Match)
        requires
            old(self).nodes().contains_key(expr.id),
        ensures
            final(self).nodes() == update_ord(
                old(self).nodes(),
                expr.id,
                swap_source(old(self).nodes()[expr.id].ord, *old_source, *new_source),
            ),
    ;

    /// Removes a node; no edge is trimmed.
    fn remove_expr(&mut self, matcher: &Match)
        requires
            old(self).nodes().contains_key(matcher.id),
        ensures
            final(self).nodes() == old(self).nodes().remove(matcher.id),
    ;
}

impl OrderedCollection {
    /// Changes the ordering data of a node.
    fn modify_ord(&mut self, id: u64, op: u8, a: &Match, b: &Match)
        requires
            old(self)@.nodes.contains_key(id),
            op < 3,
        ensures
            final(self)@ == (OrderedView {
                nodes: update_ord(
                    old(self)@.nodes,
                    id,
                    if op == 0 {
                        with_sink(old(self)@.nodes[id].ord, *a)
                    } else if op == 1 {
                        without_sink(old(self)@.nodes[id].ord, *a)
                    } else {
                        swap_source(old(self)@.nodes[id].ord, *a, *b)
                    },
                ),
                ret: old(self)@.ret,
            }),
    {
        match self.data.remove(&id) {
            Option::Some(mut e) => {
                if op == 0 {
                    e.add_sink(a);
                } else if op == 1 {
                    e.remove_sink(a);
                } else {
                    e.cas_source(a, b);
                }
                let ghost v = e@;
                self.data.insert(id, e);
                assert(self@.nodes =~= update_ord(old(self)@.nodes, id, v.ord));
            },
            Option::None => {},
        }
    }
}

impl Graph for OrderedCollection {
    open spec fn nodes(&self) -> Map<u64, NodeView> {
        self@.nodes
    }

    fn insert(&mut self, expr: OrderedExpression)
        ensures
            final(self)@.ret == old(self)@.ret,
    {
        let id = expr.get_id();
        let ghost v = expr@;
        self.data.insert(id, expr);
        assert(self@.nodes =~= old(self)@.nodes.insert(id, v));
    }

    fn add_sink(&mut self, expr: &Match, new_sink: &Match)
        ensures
            final(self)@.ret == old(self)@.ret,
    {
        self.modify_ord(expr.id, 0, new_sink, new_sink);
    }

    fn remove_sink(&mut self, expr: &Match, sink_to_remove: &Match)
        ensures
            final(self)@.ret == old(self)@.ret,
    {
        self.modify_ord(expr.id, 1, sink_to_remove, sink_to_remove);
    }

    fn compare_and_swap_source(&mut self, expr: &Match, old_source: &Match, new_source: &Match)
        ensures
            final(self)@.ret == old(self)@.ret,
    {
        self.modify_ord(expr.id, 2, old_source, new_source);
    }

    fn remove_expr(&mut self, matcher: &Match)
        ensures
            final(self)@.ret == old(self)@.ret,
    {
        self.data.remove(&matcher.id);
        assert(self@.nodes =~= old(self)@.nodes.remove(matcher.id));
    }
}

} // verus!
