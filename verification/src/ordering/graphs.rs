//! Rewrites of the dependency graph, and lists of them applied in order.
use vstd::prelude::*;

use super::coll::{update_ord, Graph, OrderedCollection, OrderedView};
use super::expr::{NodeView, OrderedExpression};
use super::matcher::Match;
use super::ord::{swap_source, with_sink, without_sink};

verus! {

/// The value of a rewrite.
pub enum ModView {
    Insert(NodeView),
    Remove(Match),
    AddSink(Match, Match),
    RemoveSink(Match, Match),
    SwapSource(Match, Match, Match),
}

/// The nodes after one rewrite, or `None` where the rewrite does not apply:
/// an insertion needs a free identifier, every other rewrite an existing
/// node.
pub open spec fn apply_mod(g: Map<u64, NodeView>, m: ModView) -> Option<Map<u64, NodeView>> {
    match m {
        ModView::Insert(n) => if g.contains_key(n.ord.id.id) {
            None
        } else {
            Some(g.insert(n.ord.id.id, n))
        },
        ModView::Remove(x) => if g.contains_key(x.id) {
            Some(g.remove(x.id))
        } else {
            None
        },
        ModView::AddSink(e, s) => if g.contains_key(e.id) {
            Some(update_ord(g, e.id, with_sink(g[e.id].ord, s)))
        } else {
            None
        },
        ModView::RemoveSink(e, s) => if g.contains_key(e.id) {
            Some(update_ord(g, e.id, without_sink(g[e.id].ord, s)))
        } else {
            None
        },
        ModView::SwapSource(e, o, n) => if g.contains_key(e.id) {
            Some(update_ord(g, e.id, swap_source(g[e.id].ord, o, n)))
        } else {
            None
        },
    }
}

/// The nodes after rewrites applied in order, or `None` where one of them
/// does not apply.
pub open spec fn apply_mods(g: Map<u64, NodeView>, ms: Seq<ModView>) -> Option<Map<u64, NodeView>>
    decreases ms.len(),
{
    if ms.len() == 0 {
        Some(g)
    } else {
        match apply_mod(g, ms[0]) {
            None => None,
            Some(g1) => apply_mods(g1, ms.drop_first()),
        }
    }
}

/// Handles the application of a change to a graph.
pub trait ModifyGraph {
    /// The rewrite.
    spec fn spec_mod(&self) -> ModView;

    /// Applies the rewrite, where it applies; otherwise leaves the graph as
    /// it is and returns `false`.
    fn apply(&self, graph: &mut OrderedCollection) -> (r: bool)
        ensures
            match apply_mod(old(graph)@.nodes, self.spec_mod()) {
                Some(g) => r && final(graph)@ == (OrderedView { nodes: g, ret: old(graph)@.ret }),
                None => !r && final(graph)@ == old(graph)@,
            },
    ;
}

/// Inserts a node into the graph.
pub struct Inserter {
    expr: OrderedExpression,
}

/// Removes a node; edges are rewritten by other operations.
#[derive(Clone, Copy, Debug, PartialEq, Eq, Structural)]
pub struct Remover {
    data: Match,
}

/// Adds a sink to a node.
#[derive(Clone, Copy, Debug, PartialEq, Eq, Structural)]
pub struct AddSink {
    expr: Match,
    sink: Match,
}

/// Removes a sink from a node.
#[derive(Clone, Copy, Debug, PartialEq, Eq, Structural)]
pub struct RemoveSink {
    expr: Match,
    sink: Match,
}

/// Replaces one source of a node by another.
#[derive(Clone, Copy, Debug, PartialEq, Eq, Structural)]
pub struct SwapSource {
    expr: Match,
    old_source: Match,
    new_source: Match,
}

impl Inserter {
    /// The insertion of `expr`.
    pub fn new(expr: OrderedExpression) -> (r: Inserter)
        ensures
            r.spec_mod() == ModView::Insert(expr@),
    {
        Inserter { expr }
    }
}

impl Remover {
    /// The removal of the node `data` names.
    pub fn new(data: Match) -> (r: Remover)
        ensures
            r.spec_mod() == ModView::Remove(data),
    {
        Remover { data }
    }
}

impl AddSink {
    /// Adding `sink` to the sinks of `expr`.
    pub fn new(expr: Match, sink: Match) -> (r: AddSink)
        ensures
            r.spec_mod() == ModView::AddSink(expr, sink),
    {
        AddSink { expr, sink }
    }
}

impl RemoveSink {
    /// Removing `sink` from the sinks of `expr`.
    pub fn new(expr: Match, sink: Match) -> (r: RemoveSink)
        ensures
            r.spec_mod() == ModView::RemoveSink(expr, sink),
    {
        RemoveSink { expr, sink }
    }
}

impl SwapSource {
    /// Replacing the source `old_source` of `expr` by `new_source`.
    pub fn new(expr: Match, old_source: Match, new_source: Match) -> (r: SwapSource)
        ensures
            r.spec_mod() == ModView::SwapSource(expr, old_source, new_source),
    {
        SwapSource { expr, old_source, new_source }
    }
}

impl ModifyGraph for Inserter {
    closed spec fn spec_mod(&self) -> ModView {
        ModView::Insert(self.expr@)
    }

    fn apply(&self, graph: &mut OrderedCollection) -> (r: bool) {
        let id = self.expr.ord().id_of();
        match graph.get_expr(id) {
            Option::Some(_) => false,
            Option::None => {
                graph.insert(self.expr.duplicate());
                true
            },
        }
    }
}

impl ModifyGraph for Remover {
    closed spec fn spec_mod(&self) -> ModView {
        ModView::Remove(self.data)
    }

    fn apply(&self, graph: &mut OrderedCollection) -> (r: bool) {
        if graph.get_expr(self.data.id).is_none() {
            return false;
        }
        graph.remove_expr(&self.data);
        true
    }
}

impl ModifyGraph for AddSink {
    closed spec fn spec_mod(&self) -> ModView {
        ModView::AddSink(self.expr, self.sink)
    }

    fn apply(&self, graph: &mut OrderedCollection) -> (r: bool) {
        if graph.get_expr(self.expr.id).is_none() {
            return false;
        }
        graph.add_sink(&self.expr, &self.sink);
        true
    }
}

impl ModifyGraph for RemoveSink {
    closed spec fn spec_mod(&self) -> ModView {
        ModView::RemoveSink(self.expr, self.sink)
    }

    fn apply(&self, graph: &mut OrderedCollection) -> (r: bool) {
        if graph.get_expr(self.expr.id).is_none() {
            return false;
        }
        graph.remove_sink(&self.expr, &self.sink);
        true
    }
}

impl ModifyGraph for SwapSource {
    closed spec fn spec_mod(&self) -> ModView {
        ModView::SwapSource(self.expr, self.old_source, self.new_source)
    }

    fn apply(&self, graph: &mut OrderedCollection) -> (r: bool) {
        if graph.get_expr(self.expr.id).is_none() {
            return false;
        }
        graph.compare_and_swap_source(&self.expr, &self.old_source, &self.new_source);
        true
    }
}

/// One rewrite of any kind.
pub enum Operation {
    Insert(Inserter),
    Remove(Remover),
    AddSink(AddSink),
    RemoveSink(RemoveSink),
    SwapSource(SwapSource),
}

impl ModifyGraph for Operation {
    open spec fn spec_mod(&self) -> ModView {
        match self {
            Operation::Insert(x) => x.spec_mod(),
            Operation::Remove(x) => x.spec_mod(),
            Operation::AddSink(x) => x.spec_mod(),
            Operation::RemoveSink(x) => x.spec_mod(),
            Operation::SwapSource(x) => x.spec_mod(),
        }
    }

    fn apply(&self, graph: &mut OrderedCollection) -> (r: bool) {
        match self {
            Operation::Insert(x) => x.apply(graph),
            Operation::Remove(x) => x.apply(graph),
            Operation::AddSink(x) => x.apply(graph),
            Operation::RemoveSink(x) => x.apply(graph),
            Operation::SwapSource(x) => x.apply(graph),
        }
    }
}

/// A list of rewrites, applied in order.
pub struct Modifications {
    data: Vec<Operation>,
}

impl View for Modifications {
    type V = Seq<ModView>;

    closed spec fn view(&self) -> Seq<ModView> {
        self.data@.map_values(|o: Operation| o.spec_mod())
    }
}

impl Modifications {
    /// No rewrites.
    pub fn new() -> (r: Modifications)
        ensures
            r@ == Seq::<ModView>::empty(),
    {
        let r = Modifications { data: Vec::new() };
        assert(r@ =~= Seq::<ModView>::empty());
        r
    }

    /// Appends a rewrite.
    pub fn push(&mut self, op: Operation)
        ensures
            final(self)@ == old(self)@.push(op.spec_mod()),
    {
        let ghost m = op.spec_mod();
        self.data.push(op);
        assert(self@ =~= old(self)@.push(m));
    }

    /// The number of rewrites.
    pub fn len(&self) -> (r: usize)
        ensures
            r == self@.len(),
    {
        self.data.len()
    }

    /// Applies the rewrites in order; stops and returns `false` at the
    /// first that does not apply.
    pub fn apply(&self, graph: &mut OrderedCollection) -> (r: bool)
        ensures
            match apply_mods(old(graph)@.nodes, self@) {
                Some(g) => r && final(graph)@ == (OrderedView { nodes: g, ret: old(graph)@.ret }),
                None => !r,
            },
    {
        let ghost ms = self@;
        assert(ms.skip(0) =~= ms);
        let n = self.data.len();
        for i in 0..n
            invariant
                n == self.data@.len(),
                ms == self@,
                graph@.ret == old(graph)@.ret,
                apply_mods(old(graph)@.nodes, ms) == apply_mods(graph@.nodes, ms.skip(i as int)),
        {
            assert(ms.skip(i as int)[0] == ms[i as int]);
            assert(ms.skip(i as int).drop_first() =~= ms.skip(i + 1));
            if !self.data[i].apply(graph) {
                return false;
            }
        }
        assert(ms.skip(n as int) =~= Seq::<ModView>::empty());
        true
    }
}

} // verus!
