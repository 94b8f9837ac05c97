//! Inlined expressions: the program reduced to calls of the standard
//! library, operations and constants, each referring to its arguments by
//! hash.
use vstd::prelude::*;

use crate::assoc::assoc_get;
use crate::cfgbuilder::collection::spec_variable;
use crate::cfgbuilder::expression::{
    hashed_hash, operation_index, push_operation_index, push_type_index, type_index, HashedExpression, HashedView,
};
use crate::cfgbuilder::stack::{
    lemma_pop_wf, lemma_push_pop, lemma_push_wf, pop_frame, push_frame, spec_context, stack_expr,
    stack_return, wf_stack, StackView,
};
use crate::cfgbuilder::{CallStack, Identifier};
use crate::hashing::{le_u32, le_u64, push_u32, push_u64, sea_hash, sea_hash_of};
use crate::parser_output::{same_name, Literal, LiteralView, Operation, TypeData};

use super::coll::{closed, grows, keyed, lemma_grows_trans, InlinedCollection, InlinedView};
use super::envir::{env_bool, env_int, env_view, lookup_bool, lookup_int};

verus! {

/// Inlined expressions contain the very base values.
#[derive(Clone, Copy, Debug, PartialEq, Eq, Structural, PartialOrd, Ord, Hash)]
pub enum InlinedExpression {
    D6(u64),
    D3(u64),
    Filter(u64, u64),
    Count(u64),
    Len(u64),
    Join(u64, u64),
    Sum(u64),
    Max(u64),
    Min(u64),
    Operation(u64, Operation, u64, TypeData),
    ConstantInt(i32),
    ConstantBool(bool),
}

/// Why inlining failed.
#[derive(Clone, Copy, Debug, PartialEq, Eq, Structural)]
pub enum InlineError {
    /// Expressions nest deeper than the inlining depth, as the calls of a
    /// recursive function do.
    TooDeep,
    /// An expression refers to a hash, variable, argument or function that
    /// is not in scope.
    Unresolved,
    /// An environment variable is not set to a value of its type.
    MissingEnvironment,
    /// Folding overflowed `i32`, or divided by zero.
    Arithmetic,
    /// The operation cannot be folded on these constants.
    IllegalOperation,
    /// The call is of a standard function that inlining does not handle.
    NotInStdlib,
}

/// The bytes a `Hasher` is fed for an inlined expression: the variant's
/// position as a machine word, then each field.
pub open spec fn inlined_bytes(e: InlinedExpression) -> Seq<u8> {
    match e {
        InlinedExpression::D6(a) => le_u64(0) + le_u64(a),
        InlinedExpression::D3(a) => le_u64(1) + le_u64(a),
        InlinedExpression::Filter(a, b) => le_u64(2) + le_u64(a) + le_u64(b),
        InlinedExpression::Count(a) => le_u64(3) + le_u64(a),
        InlinedExpression::Len(a) => le_u64(4) + le_u64(a),
        InlinedExpression::Join(a, b) => le_u64(5) + le_u64(a) + le_u64(b),
        InlinedExpression::Sum(a) => le_u64(6) + le_u64(a),
        InlinedExpression::Max(a) => le_u64(7) + le_u64(a),
        InlinedExpression::Min(a) => le_u64(8) + le_u64(a),
        InlinedExpression::Operation(l, o, r, k) => le_u64(9) + le_u64(l) + le_u64(operation_index(o))
            + le_u64(r) + le_u64(type_index(k)),
        InlinedExpression::ConstantInt(i) => le_u64(10) + le_u32(i as u32),
        InlinedExpression::ConstantBool(b) => le_u64(11) + seq![if b { 1u8 } else { 0u8 }],
    }
}

/// The hash of an inlined expression.
pub open spec fn inlined_hash(e: InlinedExpression) -> u64 {
    sea_hash_of(inlined_bytes(e))
}

/// The type of the value an inlined expression computes.
pub open spec fn inlined_type(e: InlinedExpression) -> TypeData {
    match e {
        InlinedExpression::D6(_) | InlinedExpression::D3(_) | InlinedExpression::Filter(_, _)
        | InlinedExpression::Join(_, _) => TypeData::CollectionOfInt,
        InlinedExpression::Count(_) | InlinedExpression::Len(_) | InlinedExpression::Sum(_)
        | InlinedExpression::Max(_) | InlinedExpression::Min(_) | InlinedExpression::ConstantInt(_) => TypeData::Int,
        InlinedExpression::Operation(_, _, _, k) => k,
        InlinedExpression::ConstantBool(_) => TypeData::Bool,
    }
}

/// The hashes an inlined expression refers to.
pub open spec fn children(e: InlinedExpression) -> Seq<u64> {
    match e {
        InlinedExpression::D6(a) | InlinedExpression::D3(a) | InlinedExpression::Count(a)
        | InlinedExpression::Len(a) | InlinedExpression::Sum(a) | InlinedExpression::Max(a)
        | InlinedExpression::Min(a) => seq![a],
        InlinedExpression::Filter(a, b) | InlinedExpression::Join(a, b) => seq![a, b],
        InlinedExpression::Operation(l, _, r, _) => seq![l, r],
        _ => Seq::empty(),
    }
}

/// Folds an operation whose operands are inlined: constants of matching
/// kind are combined (integers with checked arithmetic, `|` and `&`
/// bitwise), anything else stays an operation on the operands' hashes.
pub open spec fn fold_operation(
    x: InlinedExpression,
    op: Operation,
    y: InlinedExpression,
    out: TypeData,
) -> Result<InlinedExpression, InlineError> {
    match (x, y) {
        (InlinedExpression::ConstantBool(l), InlinedExpression::ConstantBool(r)) => match (out, op) {
            (TypeData::Bool, Operation::And) => Ok(InlinedExpression::ConstantBool(l && r)),
            (TypeData::Bool, Operation::Or) => Ok(InlinedExpression::ConstantBool(l || r)),
            _ => Err(InlineError::IllegalOperation),
        },
        (InlinedExpression::ConstantInt(l), InlinedExpression::ConstantInt(r)) => match (out, op) {
            (TypeData::Int, Operation::Add) => match l.checked_add(r) {
                Some(v) => Ok(InlinedExpression::ConstantInt(v)),
                None => Err(InlineError::Arithmetic),
            },
            (TypeData::Int, Operation::Sub) => match l.checked_sub(r) {
                Some(v) => Ok(InlinedExpression::ConstantInt(v)),
                None => Err(InlineError::Arithmetic),
            },
            (TypeData::Int, Operation::Mul) => match l.checked_mul(r) {
                Some(v) => Ok(InlinedExpression::ConstantInt(v)),
                None => Err(InlineError::Arithmetic),
            },
            (TypeData::Int, Operation::Div) => match l.checked_div(r) {
                Some(v) => Ok(InlinedExpression::ConstantInt(v)),
                None => Err(InlineError::Arithmetic),
            },
            (TypeData::Int, Operation::Or) => Ok(InlinedExpression::ConstantInt(l | r)),
            (TypeData::Int, Operation::And) => Ok(InlinedExpression::ConstantInt(l & r)),
            (TypeData::Bool, Operation::Equal) => Ok(InlinedExpression::ConstantBool(l == r)),
            (TypeData::Bool, Operation::NotEqual) => Ok(InlinedExpression::ConstantBool(l != r)),
            (TypeData::Bool, Operation::GreaterThan) => Ok(InlinedExpression::ConstantBool(l > r)),
            (TypeData::Bool, Operation::LessThan) => Ok(InlinedExpression::ConstantBool(l < r)),
            (TypeData::Bool, Operation::GreaterThanEqual) => Ok(InlinedExpression::ConstantBool(l >= r)),
            (TypeData::Bool, Operation::LessThanEqual) => Ok(InlinedExpression::ConstantBool(l <= r)),
            _ => Err(InlineError::IllegalOperation),
        },
        _ => Ok(InlinedExpression::Operation(inlined_hash(x), op, inlined_hash(y), out)),
    }
}

/// The standard functions of two arguments that inlining handles.
pub open spec fn is_binary_stdlib(name: Seq<char>) -> bool {
    name == "filter"@ || name == "join"@
}

/// The standard functions of one argument that inlining handles.
pub open spec fn is_unary_stdlib(name: Seq<char>) -> bool {
    name == "roll_d6"@ || name == "roll_d3"@ || name == "count"@ || name == "len"@ || name == "sum"@
}

/// The constant a literal inlines to: environment values are read from
/// `env`, and a number keeps its low 32 bits.
pub open spec fn spec_literal(env: Seq<(Seq<char>, Seq<char>)>, l: LiteralView) -> Result<InlinedExpression, InlineError> {
    match l {
        LiteralView::EnvirBool(name) => match env_bool(env, name) {
            Some(b) => Ok(InlinedExpression::ConstantBool(b)),
            None => Err(InlineError::MissingEnvironment),
        },
        LiteralView::EnvirNumber(name) => match env_int(env, name) {
            Some(i) => Ok(InlinedExpression::ConstantInt(i)),
            None => Err(InlineError::MissingEnvironment),
        },
        LiteralView::Number(i) => Ok(InlinedExpression::ConstantInt(i as i32)),
        LiteralView::Boolean(b) => Ok(InlinedExpression::ConstantBool(b)),
    }
}

/// Inlines an expression found in the context of stack `s`, with at most
/// `fuel` levels of nesting.
///
/// Constants become constants, variables are replaced by their
/// definitions, a parameter by the argument its invocation passed
/// (inlined where the invocation was made), a call of the standard
/// library by a node over its inlined arguments, any other call by its
/// body's return, and an operation by the fold of its inlined operands.
pub open spec fn spec_inline(
    s: StackView,
    env: Seq<(Seq<char>, Seq<char>)>,
    h: HashedView,
    fuel: nat,
) -> Result<InlinedExpression, InlineError>
    decreases fuel, 0nat,
{
    if fuel == 0 {
        Err(InlineError::TooDeep)
    } else {
        let f = (fuel - 1) as nat;
        match h {
            HashedView::ConstantValue(l, _) => spec_literal(env, l),
            HashedView::ExternalConstant(id, _) | HashedView::Var(id, _) => spec_inline_var(s, env, id, f),
            HashedView::FunctionArg(_, index, _) => spec_inline_param(s, env, index as int, f),
            HashedView::Func(id, args, _) => spec_inline_func(s, env, id, args, hashed_hash(h), f),
            HashedView::Op(l, op, r, out) => spec_inline_op(s, env, l, op, r, out, f),
        }
    }
}

/// Inlines the definition of a variable.
pub open spec fn spec_inline_var(
    s: StackView,
    env: Seq<(Seq<char>, Seq<char>)>,
    id: Identifier,
    fuel: nat,
) -> Result<InlinedExpression, InlineError>
    decreases fuel, 2nat,
{
    match spec_variable(s.root, id) {
        Some(v) => spec_inline(s, env, v, fuel),
        None => Err(InlineError::Unresolved),
    }
}

/// Inlines parameter `index` of the function we are in: the argument of
/// its invocation, in the context the invocation was made in.
pub open spec fn spec_inline_param(
    s: StackView,
    env: Seq<(Seq<char>, Seq<char>)>,
    index: int,
    fuel: nat,
) -> Result<InlinedExpression, InlineError>
    decreases fuel, 2nat,
{
    if s.frames.len() == 0 || index >= s.frames.last().args.len() {
        Err(InlineError::Unresolved)
    } else {
        let p = pop_frame(s);
        match stack_expr(p, s.frames.last().args[index]) {
            Some(a) => spec_inline(p, env, a, fuel),
            None => Err(InlineError::Unresolved),
        }
    }
}

/// Inlines an operation: both operands, left first, then the fold.
pub open spec fn spec_inline_op(
    s: StackView,
    env: Seq<(Seq<char>, Seq<char>)>,
    l: u64,
    op: Operation,
    r: u64,
    out: TypeData,
    fuel: nat,
) -> Result<InlinedExpression, InlineError>
    decreases fuel, 2nat,
{
    match stack_expr(s, l) {
        None => Err(InlineError::Unresolved),
        Some(a) => match spec_inline(s, env, a, fuel) {
            Err(e) => Err(e),
            Ok(x) => match stack_expr(s, r) {
                None => Err(InlineError::Unresolved),
                Some(b) => match spec_inline(s, env, b, fuel) {
                    Err(e) => Err(e),
                    Ok(y) => fold_operation(x, op, y, out),
                },
            },
        },
    }
}

/// Inlines a call through the invocation with hash `k`: a call of the
/// standard library becomes a node, any other call its body's return.
pub open spec fn spec_inline_func(
    s: StackView,
    env: Seq<(Seq<char>, Seq<char>)>,
    id: Identifier,
    args: Seq<u64>,
    k: u64,
    fuel: nat,
) -> Result<InlinedExpression, InlineError>
    decreases fuel, 3nat,
{
    match assoc_get(s.root.signatures, id) {
        Some(sig) => if sig.stdlib {
            spec_inline_stdlib(s, env, sig.name, args, fuel)
        } else {
            spec_inline_call(s, env, id, k, fuel)
        },
        None => spec_inline_call(s, env, id, k, fuel),
    }
}

/// Inlines argument `i` of a call.
pub open spec fn spec_inline_arg(
    s: StackView,
    env: Seq<(Seq<char>, Seq<char>)>,
    args: Seq<u64>,
    i: int,
    fuel: nat,
) -> Result<InlinedExpression, InlineError>
    decreases fuel, 1nat,
{
    if i >= args.len() {
        Err(InlineError::Unresolved)
    } else {
        match stack_expr(s, args[i]) {
            None => Err(InlineError::Unresolved),
            Some(a) => spec_inline(s, env, a, fuel),
        }
    }
}

/// The node for a call of a standard function of one argument.
pub open spec fn unary_node(name: Seq<char>, a: u64) -> InlinedExpression {
    if name == "roll_d6"@ {
        InlinedExpression::D6(a)
    } else if name == "roll_d3"@ {
        InlinedExpression::D3(a)
    } else if name == "count"@ {
        InlinedExpression::Count(a)
    } else if name == "len"@ {
        InlinedExpression::Len(a)
    } else {
        InlinedExpression::Sum(a)
    }
}

/// Inlines a call of the standard function `name`: `roll_d6`, `roll_d3`,
/// `count`, `len` and `sum` read one argument, `filter` and `join` two;
/// inlining handles no other.
pub open spec fn spec_inline_stdlib(
    s: StackView,
    env: Seq<(Seq<char>, Seq<char>)>,
    name: Seq<char>,
    args: Seq<u64>,
    fuel: nat,
) -> Result<InlinedExpression, InlineError>
    decreases fuel, 2nat,
{
    if is_unary_stdlib(name) {
        match spec_inline_arg(s, env, args, 0, fuel) {
            Err(e) => Err(e),
            Ok(x) => Ok(unary_node(name, inlined_hash(x))),
        }
    } else if is_binary_stdlib(name) {
        match spec_inline_arg(s, env, args, 0, fuel) {
            Err(e) => Err(e),
            Ok(x) => match spec_inline_arg(s, env, args, 1, fuel) {
                Err(e) => Err(e),
                Ok(y) => Ok(
                    if name == "filter"@ {
                        InlinedExpression::Filter(inlined_hash(x), inlined_hash(y))
                    } else {
                        InlinedExpression::Join(inlined_hash(x), inlined_hash(y))
                    },
                ),
            },
        }
    } else {
        Err(InlineError::NotInStdlib)
    }
}

/// Inlines a call of a function of the program through the invocation
/// with hash `k`: its body's return, inlined inside the function.
pub open spec fn spec_inline_call(
    s: StackView,
    env: Seq<(Seq<char>, Seq<char>)>,
    id: Identifier,
    k: u64,
    fuel: nat,
) -> Result<InlinedExpression, InlineError>
    decreases fuel, 2nat,
{
    if !(stack_expr(s, k) matches Some(HashedView::Func(l, _, _)) && l == id) || assoc_get(s.root.functions, id) is None {
        Err(InlineError::Unresolved)
    } else {
        let inner = push_frame(s, id, k);
        match stack_return(inner) {
            None => Err(InlineError::Unresolved),
            Some(r) => spec_inline(inner, env, r, fuel),
        }
    }
}

/// `c1` grows `c0`, and stores the result where there is one.
pub open spec fn stored(c0: InlinedView, c1: InlinedView, r: Result<InlinedExpression, InlineError>) -> bool {
    &&& grows(c0, c1)
    &&& r matches Ok(e) ==> c1.exprs.contains_key(inlined_hash(e)) && c1.exprs[inlined_hash(e)] == e
}

/// `c1` grows `c0`, and stores what the result refers to where there is
/// one.
pub open spec fn stored_children(c0: InlinedView, c1: InlinedView, r: Result<InlinedExpression, InlineError>) -> bool {
    &&& grows(c0, c1)
    &&& closed(c0.exprs) ==> (r matches Ok(e) ==> forall|i: int|
        0 <= i < children(e).len() ==> c1.exprs.contains_key(#[trigger] children(e)[i]))
}

/// Appends the bytes of `x` as an `i32`.
fn push_i32(out: &mut Vec<u8>, x: i32)
    ensures
        final(out)@ == old(out)@ + le_u32(x as u32),
{
    push_u32(out, x as u32);
}

/// Folds an operation on inlined operands.
fn fold_operation_exec(x: InlinedExpression, op: Operation, y: InlinedExpression, out: TypeData) -> (r: Result<
    InlinedExpression,
    InlineError,
>)
    ensures
        r == fold_operation(x, op, y, out),
{
    match (x, y) {
        (InlinedExpression::ConstantBool(l), InlinedExpression::ConstantBool(r)) => match (out, op) {
            (TypeData::Bool, Operation::And) => Ok(InlinedExpression::ConstantBool(l && r)),
            (TypeData::Bool, Operation::Or) => Ok(InlinedExpression::ConstantBool(l || r)),
            _ => Err(InlineError::IllegalOperation),
        },
        (InlinedExpression::ConstantInt(l), InlinedExpression::ConstantInt(r)) => match (out, op) {
            (TypeData::Int, Operation::Add) => match l.checked_add(r) {
                Option::Some(v) => Ok(InlinedExpression::ConstantInt(v)),
                Option::None => Err(InlineError::Arithmetic),
            },
            (TypeData::Int, Operation::Sub) => match l.checked_sub(r) {
                Option::Some(v) => Ok(InlinedExpression::ConstantInt(v)),
                Option::None => Err(InlineError::Arithmetic),
            },
            (TypeData::Int, Operation::Mul) => match l.checked_mul(r) {
                Option::Some(v) => Ok(InlinedExpression::ConstantInt(v)),
                Option::None => Err(InlineError::Arithmetic),
            },
            (TypeData::Int, Operation::Div) => match l.checked_div(r) {
                Option::Some(v) => Ok(InlinedExpression::ConstantInt(v)),
                Option::None => Err(InlineError::Arithmetic),
            },
            (TypeData::Int, Operation::Or) => Ok(InlinedExpression::ConstantInt(l | r)),
            (TypeData::Int, Operation::And) => Ok(InlinedExpression::ConstantInt(l & r)),
            (TypeData::Bool, Operation::Equal) => Ok(InlinedExpression::ConstantBool(l == r)),
            (TypeData::Bool, Operation::NotEqual) => Ok(InlinedExpression::ConstantBool(l != r)),
            (TypeData::Bool, Operation::GreaterThan) => Ok(InlinedExpression::ConstantBool(l > r)),
            (TypeData::Bool, Operation::LessThan) => Ok(InlinedExpression::ConstantBool(l < r)),
            (TypeData::Bool, Operation::GreaterThanEqual) => Ok(InlinedExpression::ConstantBool(l >= r)),
            (TypeData::Bool, Operation::LessThanEqual) => Ok(InlinedExpression::ConstantBool(l <= r)),
            _ => Err(InlineError::IllegalOperation),
        },
        _ => Ok(InlinedExpression::Operation(x.get_hash(), op, y.get_hash(), out)),
    }
}

/// The constant a literal inlines to.
fn inline_literal(lit: &Literal, env: &Vec<(String, String)>) -> (r: Result<InlinedExpression, InlineError>)
    ensures
        r == spec_literal(env_view(env@), lit@),
{
    match lit {
        Literal::EnvirBool(name) => match lookup_bool(env, name.as_str()) {
            Option::Some(b) => Ok(InlinedExpression::ConstantBool(b)),
            Option::None => Err(InlineError::MissingEnvironment),
        },
        Literal::EnvirNumber(name) => match lookup_int(env, name.as_str()) {
            Option::Some(i) => Ok(InlinedExpression::ConstantInt(i)),
            Option::None => Err(InlineError::MissingEnvironment),
        },
        Literal::Number(i) => Ok(InlinedExpression::ConstantInt(*i as i32)),
        Literal::Boolean(b) => Ok(InlinedExpression::ConstantBool(*b)),
    }
}

/// Storing an expression whose references are stored keeps the collection
/// keyed and closed.
proof fn lemma_insert_grows(a: InlinedView, b: InlinedView, e: InlinedExpression)
    requires
        b.exprs == a.exprs.insert(inlined_hash(e), e),
        b.ret == a.ret,
    ensures
        a.exprs.dom().subset_of(b.exprs.dom()),
        keyed(a.exprs) ==> keyed(b.exprs),
        closed(a.exprs) && (forall|i: int| 0 <= i < children(e).len() ==> a.exprs.contains_key(#[trigger] children(e)[i]))
            ==> closed(b.exprs),
{
    if keyed(a.exprs) {
        assert forall|k: u64| #[trigger] b.exprs.contains_key(k) implies inlined_hash(b.exprs[k]) == k by {
            if k != inlined_hash(e) {
                assert(a.exprs.contains_key(k));
            }
        }
    }
    if closed(a.exprs) && (forall|i: int| 0 <= i < children(e).len() ==> a.exprs.contains_key(#[trigger] children(e)[i])) {
        assert forall|k: u64, i: int|
            #![trigger b.exprs.contains_key(k), children(b.exprs[k])[i]]
            b.exprs.contains_key(k) && 0 <= i < children(b.exprs[k]).len() implies b.exprs.contains_key(
            children(b.exprs[k])[i],
        ) by {
            if k == inlined_hash(e) {
                assert(b.exprs[k] == e);
                assert(a.exprs.contains_key(children(e)[i]));
            } else {
                assert(a.exprs.contains_key(k));
                assert(b.exprs[k] == a.exprs[k]);
                assert(a.exprs.contains_key(children(a.exprs[k])[i]));
            }
        }
    }
}

/// A result that is stored has its references stored too, in a closed
/// collection.
proof fn lemma_stored_children(c0: InlinedView, c1: InlinedView, r: Result<InlinedExpression, InlineError>)
    requires
        stored(c0, c1, r),
        closed(c1.exprs),
    ensures
        r matches Ok(e) ==> forall|i: int| 0 <= i < children(e).len() ==> c1.exprs.contains_key(#[trigger] children(e)[i]),
{
    if let Ok(e) = r {
        assert forall|i: int| 0 <= i < children(e).len() implies c1.exprs.contains_key(#[trigger] children(e)[i]) by {
            assert(c1.exprs.contains_key(inlined_hash(e)));
            assert(c1.exprs[inlined_hash(e)] == e);
        }
    }
}

impl InlinedExpression {
    /// The bytes of the expression, field by field.
    fn push_bytes(&self, out: &mut Vec<u8>)
        ensures
            final(out)@ == old(out)@ + inlined_bytes(*self),
    {
        match self {
            InlinedExpression::D6(a) => {
                push_u64(out, 0);
                push_u64(out, *a);
                assert(final(out)@ =~= old(out)@ + inlined_bytes(*self));
            },
            InlinedExpression::D3(a) => {
                push_u64(out, 1);
                push_u64(out, *a);
                assert(final(out)@ =~= old(out)@ + inlined_bytes(*self));
            },
            InlinedExpression::Filter(a, b) => {
                push_u64(out, 2);
                push_u64(out, *a);
                push_u64(out, *b);
                assert(final(out)@ =~= old(out)@ + inlined_bytes(*self));
            },
            InlinedExpression::Count(a) => {
                push_u64(out, 3);
                push_u64(out, *a);
                assert(final(out)@ =~= old(out)@ + inlined_bytes(*self));
            },
            InlinedExpression::Len(a) => {
                push_u64(out, 4);
                push_u64(out, *a);
                assert(final(out)@ =~= old(out)@ + inlined_bytes(*self));
            },
            InlinedExpression::Join(a, b) => {
                push_u64(out, 5);
                push_u64(out, *a);
                push_u64(out, *b);
                assert(final(out)@ =~= old(out)@ + inlined_bytes(*self));
            },
            InlinedExpression::Sum(a) => {
                push_u64(out, 6);
                push_u64(out, *a);
                assert(final(out)@ =~= old(out)@ + inlined_bytes(*self));
            },
            InlinedExpression::Max(a) => {
                push_u64(out, 7);
                push_u64(out, *a);
                assert(final(out)@ =~= old(out)@ + inlined_bytes(*self));
            },
            InlinedExpression::Min(a) => {
                push_u64(out, 8);
                push_u64(out, *a);
                assert(final(out)@ =~= old(out)@ + inlined_bytes(*self));
            },
            InlinedExpression::Operation(l, o, r, k) => {
                push_u64(out, 9);
                push_u64(out, *l);
                push_operation_index(out, *o);
                push_u64(out, *r);
                push_type_index(out, *k);
                assert(final(out)@ =~= old(out)@ + inlined_bytes(*self));
            },
            InlinedExpression::ConstantInt(i) => {
                push_u64(out, 10);
                push_i32(out, *i);
                assert(final(out)@ =~= old(out)@ + inlined_bytes(*self));
            },
            InlinedExpression::ConstantBool(b) => {
                push_u64(out, 11);
                out.push(if *b { 1u8 } else { 0u8 });
                assert(final(out)@ =~= old(out)@ + inlined_bytes(*self));
            },
        }
    }

    /// The type of the value the expression computes.
    pub fn get_type(&self) -> (r: TypeData)
        ensures
            r == inlined_type(*self),
    {
        match self {
            InlinedExpression::D6(_) | InlinedExpression::D3(_) | InlinedExpression::Filter(_, _)
            | InlinedExpression::Join(_, _) => TypeData::CollectionOfInt,
            InlinedExpression::Count(_) | InlinedExpression::Len(_) | InlinedExpression::Sum(_)
            | InlinedExpression::Max(_) | InlinedExpression::Min(_) | InlinedExpression::ConstantInt(_) => TypeData::Int,
            InlinedExpression::Operation(_, _, _, k) => *k,
            InlinedExpression::ConstantBool(_) => TypeData::Bool,
        }
    }

    /// The SeaHash of the expression, as its derived `Hash` feeds a
    /// `SeaHasher`.
    pub fn get_hash(&self) -> (r: u64)
        ensures
            r == inlined_hash(*self),
    {
        let mut v: Vec<u8> = Vec::new();
        self.push_bytes(&mut v);
        assert(v@ =~= inlined_bytes(*self));
        sea_hash(v.as_slice())
    }

    /// Builds the inlined expression of `expr`, found in the context of
    /// `stack`, storing it and every expression it refers to in `coll`.
    /// The stack is left as it was found.
    #[verifier::rlimit(40)]
    pub fn new(
        expr: &HashedExpression,
        stack: &mut CallStack,
        coll: &mut InlinedCollection,
        env: &Vec<(String, String)>,
        fuel: u64,
    ) -> (r: Result<InlinedExpression, InlineError>)
        requires
            wf_stack(old(stack)@),
        ensures
            r == spec_inline(old(stack)@, env_view(env@), expr@, fuel as nat),
            final(stack)@ == old(stack)@,
            stored(old(coll)@, final(coll)@, r),
        decreases fuel, 0nat,
    {
        if fuel == 0 {
            return Err(InlineError::TooDeep);
        }
        let f = fuel - 1;
        let ghost c0 = coll@;
        let out = match expr {
            HashedExpression::ConstantValue(lit, _) => inline_literal(lit, env),
            HashedExpression::ExternalConstant(id, _) | HashedExpression::Var(id, _) => InlinedExpression::variable(
                id,
                stack,
                coll,
                env,
                f,
            ),
            HashedExpression::FunctionArg(_, index, _) => InlinedExpression::func_arg(*index, stack, coll, env, f),
            HashedExpression::Func(id, args, _) => {
                let hash = expr.get_hash();
                InlinedExpression::func(id, args, hash, stack, coll, env, f)
            },
            HashedExpression::Op(left, op, right, kind) => InlinedExpression::operation(
                *left,
                *op,
                *right,
                *kind,
                stack,
                coll,
                env,
                f,
            ),
        };
        match out {
            Result::Ok(output) => {
                let ghost c2 = coll@;
                coll.insert_hash(&output);
                proof {
                    lemma_insert_grows(c2, coll@, output);
                    assert(c0.exprs.dom().subset_of(coll@.exprs.dom()));
                }
                Ok(output)
            },
            Result::Err(e) => Err(e),
        }
    }

    /// Inlines the definition of a variable.
    fn variable(
        id: &Identifier,
        stack: &mut CallStack,
        coll: &mut InlinedCollection,
        env: &Vec<(String, String)>,
        fuel: u64,
    ) -> (r: Result<InlinedExpression, InlineError>)
        requires
            wf_stack(old(stack)@),
        ensures
            r == spec_inline_var(old(stack)@, env_view(env@), *id, fuel as nat),
            final(stack)@ == old(stack)@,
            stored_children(old(coll)@, final(coll)@, r),
        decreases fuel, 2nat,
    {
        let ghost c0 = coll@;
        match stack.get_var(id) {
            Option::Some(v) => {
                let r = InlinedExpression::new(v, stack, coll, env, fuel);
                proof {
                    if closed(c0.exprs) {
                        lemma_stored_children(c0, coll@, r);
                    }
                }
                r
            },
            Option::None => Err(InlineError::Unresolved),
        }
    }

    /// Inlines the argument passed for parameter `index` of the function we
    /// are in, in the context the invocation was made in.
    fn func_arg(
        index: usize,
        stack: &mut CallStack,
        coll: &mut InlinedCollection,
        env: &Vec<(String, String)>,
        fuel: u64,
    ) -> (r: Result<InlinedExpression, InlineError>)
        requires
            wf_stack(old(stack)@),
        ensures
            r == spec_inline_param(old(stack)@, env_view(env@), index as int, fuel as nat),
            final(stack)@ == old(stack)@,
            stored_children(old(coll)@, final(coll)@, r),
        decreases fuel, 2nat,
    {
        let ghost c0 = coll@;
        let count = match stack.get_arg_count() {
            Option::Some(c) => c,
            Option::None => return Err(InlineError::Unresolved),
        };
        if index >= count {
            return Err(InlineError::Unresolved);
        }
        let ghost s0 = stack@;
        let context = match stack.get_context() {
            Option::Some(c) => c,
            Option::None => return Err(InlineError::Unresolved),
        };
        let func_expr = match stack.get_ctx_expr() {
            Option::Some(e) => e,
            Option::None => return Err(InlineError::Unresolved),
        };
        let arg_expr = match stack.get_arg_index(index) {
            Option::Some(a) => a,
            Option::None => return Err(InlineError::Unresolved),
        };
        proof {
            lemma_pop_wf(s0);
        }
        stack.pop();
        let out = match stack.get_expr(&arg_expr) {
            Option::Some(a) => InlinedExpression::new(a, stack, coll, env, fuel),
            Option::None => Err(InlineError::Unresolved),
        };
        stack.push(&context, &func_expr);
        proof {
            if closed(c0.exprs) {
                lemma_stored_children(c0, coll@, out);
            }
        }
        out
    }

    /// Inlines an operation: both operands, left first, then the fold.
    #[verifier::rlimit(40)]
    fn operation(
        left: u64,
        op: Operation,
        right: u64,
        out: TypeData,
        stack: &mut CallStack,
        coll: &mut InlinedCollection,
        env: &Vec<(String, String)>,
        fuel: u64,
    ) -> (r: Result<InlinedExpression, InlineError>)
        requires
            wf_stack(old(stack)@),
        ensures
            r == spec_inline_op(old(stack)@, env_view(env@), left, op, right, out, fuel as nat),
            final(stack)@ == old(stack)@,
            stored_children(old(coll)@, final(coll)@, r),
        decreases fuel, 2nat,
    {
        let ghost c0 = coll@;
        let a = match stack.get_expr(&left) {
            Option::Some(a) => a,
            Option::None => return Err(InlineError::Unresolved),
        };
        let rx = InlinedExpression::new(a, stack, coll, env, fuel);
        let x = match rx {
            Result::Ok(x) => x,
            Result::Err(e) => return Err(e),
        };
        let ghost c1 = coll@;
        let b = match stack.get_expr(&right) {
            Option::Some(b) => b,
            Option::None => return Err(InlineError::Unresolved),
        };
        let ry = InlinedExpression::new(b, stack, coll, env, fuel);
        proof {
            lemma_grows_trans(c0, c1, coll@);
        }
        let y = match ry {
            Result::Ok(y) => y,
            Result::Err(e) => return Err(e),
        };
        let r = fold_operation_exec(x, op, y, out);
        proof {
            if let Ok(e) = r {
                assert forall|i: int| 0 <= i < children(e).len() implies coll@.exprs.contains_key(
                    #[trigger] children(e)[i],
                ) by {
                    assert(c1.exprs.contains_key(inlined_hash(x)));
                }
            }
        }
        r
    }

    /// Inlines a call: a call of the standard library becomes a node, any
    /// other call its body's return.
    fn func(
        id: &Identifier,
        args: &Vec<u64>,
        hash: u64,
        stack: &mut CallStack,
        coll: &mut InlinedCollection,
        env: &Vec<(String, String)>,
        fuel: u64,
    ) -> (r: Result<InlinedExpression, InlineError>)
        requires
            wf_stack(old(stack)@),
        ensures
            r == spec_inline_func(old(stack)@, env_view(env@), *id, args@, hash, fuel as nat),
            final(stack)@ == old(stack)@,
            stored_children(old(coll)@, final(coll)@, r),
            !(assoc_get(old(stack)@.root.signatures, *id) matches Some(f) && f.stdlib) ==> stored(
                old(coll)@,
                final(coll)@,
                r,
            ),
        decreases fuel, 3nat,
    {
        let ghost c0 = coll@;
        if stack.is_stdlib(id) {
            match stack.get_function_name(id) {
                Option::Some(name) => InlinedExpression::stdlib(name, args, stack, coll, env, fuel),
                Option::None => Err(InlineError::Unresolved),
            }
        } else {
            let r = InlinedExpression::call(id, hash, stack, coll, env, fuel);
            proof {
                if closed(c0.exprs) {
                    lemma_stored_children(c0, coll@, r);
                }
            }
            r
        }
    }

    /// Inlines argument `i` of a call of the standard library.
    fn arg(
        args: &Vec<u64>,
        i: usize,
        stack: &mut CallStack,
        coll: &mut InlinedCollection,
        env: &Vec<(String, String)>,
        fuel: u64,
    ) -> (r: Result<InlinedExpression, InlineError>)
        requires
            wf_stack(old(stack)@),
        ensures
            r == spec_inline_arg(old(stack)@, env_view(env@), args@, i as int, fuel as nat),
            final(stack)@ == old(stack)@,
            stored(old(coll)@, final(coll)@, r),
        decreases fuel, 1nat,
    {
        if i >= args.len() {
            return Err(InlineError::Unresolved);
        }
        match stack.get_expr(&args[i]) {
            Option::Some(a) => InlinedExpression::new(a, stack, coll, env, fuel),
            Option::None => Err(InlineError::Unresolved),
        }
    }

    /// Inlines a call of the standard function `name`.
    #[verifier::rlimit(40)]
    fn stdlib(
        name: &str,
        args: &Vec<u64>,
        stack: &mut CallStack,
        coll: &mut InlinedCollection,
        env: &Vec<(String, String)>,
        fuel: u64,
    ) -> (r: Result<InlinedExpression, InlineError>)
        requires
            wf_stack(old(stack)@),
        ensures
            r == spec_inline_stdlib(old(stack)@, env_view(env@), name@, args@, fuel as nat),
            final(stack)@ == old(stack)@,
            stored_children(old(coll)@, final(coll)@, r),
        decreases fuel, 2nat,
    {
        let d6 = same_name(name, "roll_d6");
        let d3 = same_name(name, "roll_d3");
        let count = same_name(name, "count");
        let len = same_name(name, "len");
        let sum = same_name(name, "sum");
        let filter = same_name(name, "filter");
        let join = same_name(name, "join");
        if d6 || d3 || count || len || sum {
            let x = InlinedExpression::arg(args, 0, stack, coll, env, fuel)?;
            let a = x.get_hash();
            let e = if d6 {
                InlinedExpression::D6(a)
            } else if d3 {
                InlinedExpression::D3(a)
            } else if count {
                InlinedExpression::Count(a)
            } else if len {
                InlinedExpression::Len(a)
            } else {
                InlinedExpression::Sum(a)
            };
            assert(e == unary_node(name@, a));
            assert(children(e) =~= seq![a]);
            Ok(e)
        } else if filter || join {
            let ghost c0 = coll@;
            let rx = InlinedExpression::arg(args, 0, stack, coll, env, fuel);
            let x = match rx {
                Result::Ok(x) => x,
                Result::Err(e) => return Err(e),
            };
            let ghost c1 = coll@;
            let ry = InlinedExpression::arg(args, 1, stack, coll, env, fuel);
            proof {
                lemma_grows_trans(c0, c1, coll@);
            }
            let y = match ry {
                Result::Ok(y) => y,
                Result::Err(e) => return Err(e),
            };
            let a = x.get_hash();
            let b = y.get_hash();
            let e = if filter {
                InlinedExpression::Filter(a, b)
            } else {
                InlinedExpression::Join(a, b)
            };
            assert(children(e) =~= seq![a, b]);
            Ok(e)
        } else {
            Err(InlineError::NotInStdlib)
        }
    }

    /// Inlines a call of a function of the program: its body's return,
    /// inlined inside the function.
    fn call(
        id: &Identifier,
        k: u64,
        stack: &mut CallStack,
        coll: &mut InlinedCollection,
        env: &Vec<(String, String)>,
        fuel: u64,
    ) -> (r: Result<InlinedExpression, InlineError>)
        requires
            wf_stack(old(stack)@),
        ensures
            r == spec_inline_call(old(stack)@, env_view(env@), *id, k, fuel as nat),
            final(stack)@ == old(stack)@,
            stored(old(coll)@, final(coll)@, r),
        decreases fuel, 2nat,
    {
        let invoked = match stack.get_expr(&k) {
            Option::Some(HashedExpression::Func(l, _, _)) => *l == *id,
            _ => false,
        };
        if !invoked || !stack.has_function(id) {
            return Err(InlineError::Unresolved);
        }
        let ghost s0 = stack@;
        proof {
            lemma_push_wf(s0, *id, k);
            lemma_push_pop(s0, *id, k);
        }
        stack.push(id, &k);
        let out = match stack.get_return() {
            Option::Some(r) => InlinedExpression::new(r, stack, coll, env, fuel),
            Option::None => Err(InlineError::Unresolved),
        };
        stack.pop();
        out
    }
}

} // verus!
