//! The inlined collection: every inlined expression stored once under its
//! hash, and the hash of the program's result.
use std::collections::BTreeMap;
use vstd::prelude::*;

use crate::cfgbuilder::collection::spec_return;
use crate::cfgbuilder::stack::StackView;
use crate::cfgbuilder::{CallStack, ExpressionCollection};

use super::envir::env_view;
use super::expr::{children, inlined_hash, spec_inline, InlineError, InlinedExpression};

verus! {

broadcast use vstd::std_specs::btree::group_btree_axioms;

/// How deeply inlining may nest, expressions within expressions and calls
/// within calls: as many levels as a `u64` counts. Only a program that
/// calls itself without end runs it out.
pub const INLINE_DEPTH: u64 = 0xffff_ffff_ffff_ffff;

/// The value of an inlined collection.
pub struct InlinedView {
    pub exprs: Map<u64, InlinedExpression>,
    pub ret: Option<u64>,
}

/// Every expression is stored under its own hash.
pub open spec fn keyed(m: Map<u64, InlinedExpression>) -> bool {
    forall|k: u64| #[trigger] m.contains_key(k) ==> inlined_hash(m[k]) == k
}

/// Every hash an expression refers to is stored.
pub open spec fn closed(m: Map<u64, InlinedExpression>) -> bool {
    forall|k: u64, i: int|
        #![trigger m.contains_key(k), children(m[k])[i]]
        m.contains_key(k) && 0 <= i < children(m[k]).len() ==> m.contains_key(children(m[k])[i])
}

/// `b` stores something under every hash `a` does, has the same result,
/// and the two invariants where `a` has them.
pub open spec fn grows(a: InlinedView, b: InlinedView) -> bool {
    &&& a.exprs.dom().subset_of(b.exprs.dom())
    &&& a.ret == b.ret
    &&& keyed(a.exprs) ==> keyed(b.exprs)
    &&& closed(a.exprs) ==> closed(b.exprs)
}

/// Growing is transitive.
pub proof fn lemma_grows_trans(a: InlinedView, b: InlinedView, c: InlinedView)
    requires
        grows(a, b),
        grows(b, c),
    ensures
        grows(a, c),
{
    assert forall|k: u64| #[trigger] a.exprs.contains_key(k) implies c.exprs.contains_key(k) by {
        assert(b.exprs.contains_key(k));
    }
}

/// InlinedCollection maps hashes to inlined expressions.
pub struct InlinedCollection {
    expr: BTreeMap<u64, InlinedExpression>,
    ret: Option<u64>,
}

impl View for InlinedCollection {
    type V = InlinedView;

    closed spec fn view(&self) -> InlinedView {
        InlinedView { exprs: self.expr@, ret: self.ret }
    }
}

impl InlinedCollection {
    /// An empty collection.
    pub fn empty() -> (r: InlinedCollection)
        ensures
            r@.exprs == Map::<u64, InlinedExpression>::empty(),
            r@.ret is None,
    {
        InlinedCollection { expr: BTreeMap::new(), ret: None }
    }

    /// Inlines the return of an expression collection: the result's hash
    /// becomes the return, and every expression inlining produced is
    /// stored under its hash.
    pub fn new(arg: &ExpressionCollection, env: &Vec<(String, String)>) -> (r: Result<InlinedCollection, InlineError>)
        requires
            spec_return(arg@) is Some,
        ensures
            match spec_inline(
                StackView { root: arg@, frames: Seq::empty() },
                env_view(env@),
                spec_return(arg@)->Some_0,
                INLINE_DEPTH as nat,
            ) {
                Ok(e) => r matches Ok(c) && c@.ret == Some(inlined_hash(e)) && c@.exprs.contains_key(
                    inlined_hash(e),
                ) && c@.exprs[inlined_hash(e)] == e && keyed(c@.exprs) && closed(c@.exprs),
                Err(x) => r == Err::<InlinedCollection, InlineError>(x),
            },
    {
        let mut stack = CallStack::new(arg);
        let mut coll = InlinedCollection::empty();
        proof {
            assert(stack@.frames =~= Seq::<crate::cfgbuilder::stack::Frame>::empty());
        }
        match arg.get_return() {
            Option::Some(expr) => {
                let e = InlinedExpression::new(expr, &mut stack, &mut coll, env, INLINE_DEPTH)?;
                coll.ret = Some(e.get_hash());
                Ok(coll)
            },
            Option::None => Err(InlineError::Unresolved),
        }
    }

    /// The hashes stored, in increasing order.
    pub fn keys(&self) -> (r: Vec<u64>)
        ensures
            r@.to_set() == self@.exprs.dom(),
            forall|i: int, j: int| 0 <= i < j < r@.len() ==> r@[i] < r@[j],
    {
        crate::ordering::coll::sorted_keys(&self.expr)
    }

    /// The hash of the result.
    pub fn get_return(&self) -> (r: Option<u64>)
        ensures
            r == self@.ret,
    {
        self.ret
    }

    /// The expression stored under a hash.
    pub fn get_expr(&self, inlined_expr: &u64) -> (r: Option<&InlinedExpression>)
        ensures
            match r {
                Some(e) => self@.exprs.contains_key(*inlined_expr) && self@.exprs[*inlined_expr] == *e,
                None => !self@.exprs.contains_key(*inlined_expr),
            },
    {
        self.expr.get(inlined_expr)
    }

    /// Stores an inlined expression under its hash.
    pub fn insert_hash(&mut self, inlined: &InlinedExpression)
        ensures
            final(self)@.exprs == old(self)@.exprs.insert(inlined_hash(*inlined), *inlined),
            final(self)@.ret == old(self)@.ret,
    {
        let inlined_hashed = inlined.get_hash();
        self.expr.insert(inlined_hashed, *inlined);
    }
}

} // verus!
