//! The call stack that inlining walks: which function bodies we are in,
//! and with which arguments.
use vstd::prelude::*;

use crate::assoc::assoc_get;

use super::collection::{scope_data, spec_return, spec_variable, CollectionView, ExpressionCollection};
use super::expression::{HashedExpression, HashedView};
use super::identifier::Identifier;

verus! {

/// A frame of the stack: the function entered, its body, the hashes of the
/// arguments it was invoked with, and the hash of the invocation.
pub struct Frame {
    pub name: Identifier,
    pub body: CollectionView,
    pub args: Seq<u64>,
    pub expr: u64,
}

/// The value of a call stack: the root collection and the frames entered,
/// innermost last.
pub struct StackView {
    pub root: CollectionView,
    pub frames: Seq<Frame>,
}

/// The function whose body we are in, if any.
pub open spec fn spec_context(s: StackView) -> Option<Identifier> {
    if s.frames.len() == 0 {
        None
    } else {
        Some(s.frames.last().name)
    }
}

/// The expression with hash `k` in the current context.
pub open spec fn stack_expr(s: StackView, k: u64) -> Option<HashedView> {
    let t = scope_data(s.root, spec_context(s));
    if t.contains_key(k) {
        Some(t[k])
    } else {
        None
    }
}

/// The expression returned in the current context: the innermost body's
/// return where it has one, else the root's.
pub open spec fn stack_return(s: StackView) -> Option<HashedView> {
    if s.frames.len() > 0 && spec_return(s.frames.last().body) is Some {
        spec_return(s.frames.last().body)
    } else {
        spec_return(s.root)
    }
}

/// Entering the function `id` through the invocation with hash `k`.
pub open spec fn push_frame(s: StackView, id: Identifier, k: u64) -> StackView {
    StackView {
        root: s.root,
        frames: s.frames.push(
            Frame {
                name: id,
                body: assoc_get(s.root.functions, id)->Some_0,
                args: stack_expr(s, k)->Some_0->Func_1,
                expr: k,
            },
        ),
    }
}

/// Leaving the innermost function.
pub open spec fn pop_frame(s: StackView) -> StackView {
    StackView {
        root: s.root,
        frames: if s.frames.len() == 0 {
            s.frames
        } else {
            s.frames.drop_last()
        },
    }
}

/// One entered function.
struct StackFrame<'b> {
    name: Identifier,
    body: &'b ExpressionCollection,
    args: Vec<u64>,
    expr: u64,
}

/// CallStack manages how expressions are looked up while inlining: it
/// keeps track of where we are within the call stack.
pub struct CallStack<'b> {
    namespace: &'b ExpressionCollection,
    frames: Vec<StackFrame<'b>>,
}

impl<'b> View for CallStack<'b> {
    type V = StackView;

    closed spec fn view(&self) -> StackView {
        StackView {
            root: self.namespace@,
            frames: self.frames@.map_values(
                |f: StackFrame<'b>| Frame { name: f.name, body: f.body@, args: f.args@, expr: f.expr },
            ),
        }
    }
}

impl<'b> CallStack<'b> {
    /// A stack at the root of a collection, with no function entered.
    pub fn new(namespace: &'b ExpressionCollection) -> (r: CallStack<'b>)
        ensures
            r@ == (StackView { root: namespace@, frames: Seq::empty() }),
    {
        let r = CallStack { namespace: namespace, frames: Vec::new() };
        assert(r@.frames =~= Seq::<Frame>::empty());
        r
    }

    /// Enters the function `id`, invoked by the expression with hash
    /// `expr` of the current context.
    pub fn push(&mut self, id: &Identifier, expr: &u64)
        requires
            stack_expr(old(self)@, *expr) matches Some(HashedView::Func(looked_up, _, _)) && looked_up == *id,
            assoc_get(old(self)@.root.functions, *id) is Some,
        ensures
            final(self)@ == push_frame(old(self)@, *id, *expr),
    {
        let args: Vec<u64> = match self.get_expr(expr) {
            Option::Some(HashedExpression::Func(_, args, _)) => {
                let mut out: Vec<u64> = Vec::new();
                for i in 0..args.len()
                    invariant
                        out@ == args@.take(i as int),
                {
                    out.push(args[i]);
                    assert(out@ =~= args@.take(i + 1));
                }
                assert(out@ =~= args@);
                out
            },
            _ => Vec::new(),
        };
        match self.namespace.get_function_context(id) {
            Option::Some(body) => {
                let ghost before = self.frames@;
                self.frames.push(StackFrame { name: *id, body, args, expr: *expr });
                assert(self@.frames =~= old(self)@.frames.push(
                    Frame { name: *id, body: body@, args: args@, expr: *expr },
                ));
            },
            Option::None => {},
        }
    }

    /// Leaves the innermost function.
    pub fn pop(&mut self)
        ensures
            final(self)@ == pop_frame(old(self)@),
    {
        self.frames.pop();
        assert(self@.frames =~= pop_frame(old(self)@).frames);
    }

    /// Whether the function `id` is of the standard library.
    pub fn is_stdlib(&self, id: &Identifier) -> (r: bool)
        ensures
            r == (assoc_get(self@.root.signatures, *id) matches Some(f) && f.stdlib),
    {
        self.namespace.is_function_stdlib(id)
    }

    /// The name of the function `id`.
    pub fn get_function_name(&self, id: &Identifier) -> (r: Option<&'b str>)
        ensures
            match assoc_get(self@.root.signatures, *id) {
                Some(f) => r matches Some(s) && s@ == f.name,
                None => r is None,
            },
    {
        self.namespace.get_function_name(id)
    }

    /// The position of the innermost frame.
    fn get_last_index(&self) -> (r: Option<usize>)
        ensures
            match r {
                Some(i) => i + 1 == self.frames@.len() && i + 1 == self@.frames.len(),
                None => self.frames@.len() == 0 && self@.frames.len() == 0,
            },
    {
        match self.frames.len() {
            0 => None,
            x => Some(x - 1),
        }
    }

    /// The returning expression for the current context.
    pub fn get_return(&self) -> (r: Option<&'b HashedExpression>)
        ensures
            match stack_return(self@) {
                Some(h) => r matches Some(e) && e@ == h,
                None => r is None,
            },
    {
        match self.get_last_index() {
            Option::Some(i) => match self.frames[i].body.get_return() {
                Option::Some(e) => return Some(e),
                Option::None => {},
            },
            Option::None => {},
        }
        self.namespace.get_return()
    }

    /// Looks up an expression within the current context.
    pub fn get_expr(&self, id: &u64) -> (r: Option<&'b HashedExpression>)
        ensures
            match stack_expr(self@, *id) {
                Some(h) => r matches Some(e) && e@ == h,
                None => r is None,
            },
    {
        self.namespace.get_expr(self.get_context(), id)
    }

    /// The expression that defines a variable.
    pub fn get_var(&self, id: &Identifier) -> (r: Option<&'b HashedExpression>)
        ensures
            match spec_variable(self@.root, *id) {
                Some(h) => r matches Some(e) && e@ == h,
                None => r is None,
            },
    {
        self.namespace.find_variable(id)
    }

    /// The identifier of the function we are in.
    pub fn get_context(&self) -> (r: Option<Identifier>)
        ensures
            r == spec_context(self@),
    {
        match self.get_last_index() {
            Option::Some(i) => Some(self.frames[i].name),
            Option::None => None,
        }
    }

    /// The hash of the invocation of the function we are in.
    pub fn get_ctx_expr(&self) -> (r: Option<u64>)
        ensures
            r == if self@.frames.len() == 0 {
                None::<u64>
            } else {
                Some(self@.frames.last().expr)
            },
    {
        match self.get_last_index() {
            Option::Some(i) => Some(self.frames[i].expr),
            Option::None => None,
        }
    }

    /// The number of arguments of the invocation we are in.
    pub fn get_arg_count(&self) -> (r: Option<usize>)
        ensures
            match r {
                Some(c) => self@.frames.len() > 0 && c as int == self@.frames.last().args.len(),
                None => self@.frames.len() == 0,
            },
    {
        let n = self.frames.len();
        if n == 0 {
            None
        } else {
            Some(self.frames[n - 1].args.len())
        }
    }

    /// Whether the root has a body for the function `id`.
    pub fn has_function(&self, id: &Identifier) -> (r: bool)
        ensures
            r == assoc_get(self@.root.functions, *id) is Some,
    {
        self.namespace.get_function_context(id).is_some()
    }

    /// The hash of argument `arg_index` of the invocation we are in.
    pub fn get_arg_index(&self, arg_index: usize) -> (r: Option<u64>)
        requires
            self@.frames.len() > 0 ==> arg_index < self@.frames.last().args.len(),
        ensures
            r == if self@.frames.len() == 0 {
                None::<u64>
            } else {
                Some(self@.frames.last().args[arg_index as int])
            },
    {
        match self.get_last_index() {
            Option::Some(i) => Some(self.frames[i].args[arg_index]),
            Option::None => None,
        }
    }
}

/// Every frame was entered through an invocation of its function found in
/// the context below it, with that invocation's arguments and the
/// function's body.
pub open spec fn wf_stack(s: StackView) -> bool
    decreases s.frames.len(),
{
    if s.frames.len() == 0 {
        true
    } else {
        let p = pop_frame(s);
        let f = s.frames.last();
        &&& wf_stack(p)
        &&& stack_expr(p, f.expr) matches Some(HashedView::Func(l, a, _)) && l == f.name && a == f.args
        &&& assoc_get(s.root.functions, f.name) == Some(f.body)
    }
}

/// Entering a function through one of its invocations keeps the stack well
/// formed.
pub proof fn lemma_push_wf(s: StackView, id: Identifier, k: u64)
    requires
        wf_stack(s),
        stack_expr(s, k) matches Some(HashedView::Func(looked_up, _, _)) && looked_up == id,
        assoc_get(s.root.functions, id) is Some,
    ensures
        wf_stack(push_frame(s, id, k)),
{
    lemma_push_pop(s, id, k);
}

/// Leaving a function keeps the stack well formed, and entering it again
/// through the same invocation gives the stack back.
pub proof fn lemma_pop_wf(s: StackView)
    requires
        wf_stack(s),
        s.frames.len() > 0,
    ensures
        wf_stack(pop_frame(s)),
        push_frame(pop_frame(s), s.frames.last().name, s.frames.last().expr) == s,
{
    assert(push_frame(pop_frame(s), s.frames.last().name, s.frames.last().expr).frames =~= s.frames);
}

/// Entering a function and leaving it again restores the stack.
pub proof fn lemma_push_pop(s: StackView, id: Identifier, k: u64)
    ensures
        pop_frame(push_frame(s, id, k)) == s,
{
    assert(pop_frame(push_frame(s, id, k)).frames =~= s.frames);
}

/// After entering a function, lookups happen in its body and its argument
/// list is that of the invocation.
pub proof fn lemma_push_context(s: StackView, id: Identifier, k: u64)
    ensures
        spec_context(push_frame(s, id, k)) == Some(id),
        push_frame(s, id, k).frames.last().expr == k,
        push_frame(s, id, k).frames.len() == s.frames.len() + 1,
{
}

} // verus!
