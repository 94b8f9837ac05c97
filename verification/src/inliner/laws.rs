//! Inlining with more depth changes nothing that inlined with less.
use vstd::prelude::*;

use crate::cfgbuilder::collection::spec_variable;
use crate::cfgbuilder::expression::HashedView;
use crate::cfgbuilder::stack::{pop_frame, push_frame, stack_expr, stack_return, StackView};
use crate::cfgbuilder::Identifier;
use crate::parser_output::{Operation, TypeData};

use super::expr::{
    fold_operation, inlined_hash, is_binary_stdlib, is_unary_stdlib, unary_node, spec_inline, spec_inline_arg, spec_inline_call, spec_inline_func, spec_inline_op, spec_inline_param,
    spec_inline_stdlib, spec_inline_var, InlineError, InlinedExpression,
};

verus! {

/// An expression that inlines, or fails for another reason than its
/// depth, with some fuel does the same with any more fuel.
pub proof fn lemma_inline_more_fuel(
    s: StackView,
    env: Seq<(Seq<char>, Seq<char>)>,
    h: HashedView,
    f1: nat,
    f2: nat,
)
    requires
        f1 <= f2,
        spec_inline(s, env, h, f1) != Err::<super::InlinedExpression, InlineError>(InlineError::TooDeep),
    ensures
        spec_inline(s, env, h, f2) == spec_inline(s, env, h, f1),
    decreases f1, 0nat,
{
    let g1 = (f1 - 1) as nat;
    let g2 = (f2 - 1) as nat;
    match h {
        HashedView::ConstantValue(_, _) => {},
        HashedView::ExternalConstant(id, _) => lemma_var_more_fuel(s, env, id, g1, g2),
        HashedView::Var(id, _) => lemma_var_more_fuel(s, env, id, g1, g2),
        HashedView::FunctionArg(_, index, _) => lemma_param_more_fuel(s, env, index as int, g1, g2),
        HashedView::Func(id, args, _) => lemma_func_more_fuel(
            s,
            env,
            id,
            args,
            crate::cfgbuilder::expression::hashed_hash(h),
            g1,
            g2,
        ),
        HashedView::Op(l, op, r, out) => lemma_op_more_fuel(s, env, l, op, r, out, g1, g2),
    }
}

proof fn lemma_var_more_fuel(s: StackView, env: Seq<(Seq<char>, Seq<char>)>, id: Identifier, f1: nat, f2: nat)
    requires
        f1 <= f2,
        spec_inline_var(s, env, id, f1) != Err::<super::InlinedExpression, InlineError>(InlineError::TooDeep),
    ensures
        spec_inline_var(s, env, id, f2) == spec_inline_var(s, env, id, f1),
    decreases f1, 2nat,
{
    match spec_variable(s.root, id) {
        Some(v) => lemma_inline_more_fuel(s, env, v, f1, f2),
        None => {},
    }
}

proof fn lemma_param_more_fuel(s: StackView, env: Seq<(Seq<char>, Seq<char>)>, index: int, f1: nat, f2: nat)
    requires
        f1 <= f2,
        spec_inline_param(s, env, index, f1) != Err::<super::InlinedExpression, InlineError>(InlineError::TooDeep),
    ensures
        spec_inline_param(s, env, index, f2) == spec_inline_param(s, env, index, f1),
    decreases f1, 2nat,
{
    if !(s.frames.len() == 0 || index >= s.frames.last().args.len()) {
        let p = pop_frame(s);
        match stack_expr(p, s.frames.last().args[index]) {
            Some(a) => lemma_inline_more_fuel(p, env, a, f1, f2),
            None => {},
        }
    }
}

proof fn lemma_op_more_fuel(
    s: StackView,
    env: Seq<(Seq<char>, Seq<char>)>,
    l: u64,
    op: Operation,
    r: u64,
    out: TypeData,
    f1: nat,
    f2: nat,
)
    requires
        f1 <= f2,
        spec_inline_op(s, env, l, op, r, out, f1) != Err::<super::InlinedExpression, InlineError>(
            InlineError::TooDeep,
        ),
    ensures
        spec_inline_op(s, env, l, op, r, out, f2) == spec_inline_op(s, env, l, op, r, out, f1),
    decreases f1, 2nat,
{
    match stack_expr(s, l) {
        None => {},
        Some(a) => {
            lemma_inline_more_fuel(s, env, a, f1, f2);
            match spec_inline(s, env, a, f1) {
                Err(_) => {},
                Ok(_) => match stack_expr(s, r) {
                    None => {},
                    Some(b) => lemma_inline_more_fuel(s, env, b, f1, f2),
                },
            }
        },
    }
}

proof fn lemma_func_more_fuel(
    s: StackView,
    env: Seq<(Seq<char>, Seq<char>)>,
    id: Identifier,
    args: Seq<u64>,
    k: u64,
    f1: nat,
    f2: nat,
)
    requires
        f1 <= f2,
        spec_inline_func(s, env, id, args, k, f1) != Err::<super::InlinedExpression, InlineError>(
            InlineError::TooDeep,
        ),
    ensures
        spec_inline_func(s, env, id, args, k, f2) == spec_inline_func(s, env, id, args, k, f1),
    decreases f1, 3nat,
{
    match crate::assoc::assoc_get(s.root.signatures, id) {
        Some(sig) => if sig.stdlib {
            lemma_stdlib_more_fuel(s, env, sig.name, args, f1, f2);
        } else {
            lemma_call_more_fuel(s, env, id, k, f1, f2);
        },
        None => lemma_call_more_fuel(s, env, id, k, f1, f2),
    }
}

proof fn lemma_arg_more_fuel(s: StackView, env: Seq<(Seq<char>, Seq<char>)>, args: Seq<u64>, i: int, f1: nat, f2: nat)
    requires
        f1 <= f2,
        spec_inline_arg(s, env, args, i, f1) != Err::<super::InlinedExpression, InlineError>(InlineError::TooDeep),
    ensures
        spec_inline_arg(s, env, args, i, f2) == spec_inline_arg(s, env, args, i, f1),
    decreases f1, 1nat,
{
    if i < args.len() {
        match stack_expr(s, args[i]) {
            None => {},
            Some(a) => lemma_inline_more_fuel(s, env, a, f1, f2),
        }
    }
}

proof fn lemma_stdlib_more_fuel(
    s: StackView,
    env: Seq<(Seq<char>, Seq<char>)>,
    name: Seq<char>,
    args: Seq<u64>,
    f1: nat,
    f2: nat,
)
    requires
        f1 <= f2,
        spec_inline_stdlib(s, env, name, args, f1) != Err::<super::InlinedExpression, InlineError>(
            InlineError::TooDeep,
        ),
    ensures
        spec_inline_stdlib(s, env, name, args, f2) == spec_inline_stdlib(s, env, name, args, f1),
    decreases f1, 2nat,
{
    if super::expr::is_unary_stdlib(name) {
        lemma_arg_more_fuel(s, env, args, 0, f1, f2);
    } else if super::expr::is_binary_stdlib(name) {
        lemma_arg_more_fuel(s, env, args, 0, f1, f2);
        if spec_inline_arg(s, env, args, 0, f1) is Ok {
            lemma_arg_more_fuel(s, env, args, 1, f1, f2);
        }
    }
}

proof fn lemma_call_more_fuel(s: StackView, env: Seq<(Seq<char>, Seq<char>)>, id: Identifier, k: u64, f1: nat, f2: nat)
    requires
        f1 <= f2,
        spec_inline_call(s, env, id, k, f1) != Err::<super::InlinedExpression, InlineError>(InlineError::TooDeep),
    ensures
        spec_inline_call(s, env, id, k, f2) == spec_inline_call(s, env, id, k, f1),
    decreases f1, 2nat,
{
    if !(!(stack_expr(s, k) matches Some(HashedView::Func(l, _, _)) && l == id) || crate::assoc::assoc_get(
        s.root.functions,
        id,
    ) is None) {
        let inner = push_frame(s, id, k);
        match stack_return(inner) {
            None => {},
            Some(r) => lemma_inline_more_fuel(inner, env, r, f1, f2),
        }
    }
}

/// Inlining at the collection's depth gives, for every expression, what
/// inlining at any depth gives unless that depth ran out: the collection
/// inlines every program that some depth inlines, and gives `TooDeep` only
/// where no depth suffices (a program that calls itself without end).
pub proof fn lemma_inline_depth_suffices(s: StackView, env: Seq<(Seq<char>, Seq<char>)>, h: HashedView, fuel: nat)
    requires
        fuel <= super::coll::INLINE_DEPTH,
        spec_inline(s, env, h, fuel) != Err::<super::InlinedExpression, InlineError>(InlineError::TooDeep),
    ensures
        spec_inline(s, env, h, super::coll::INLINE_DEPTH as nat) == spec_inline(s, env, h, fuel),
{
    lemma_inline_more_fuel(s, env, h, fuel, super::coll::INLINE_DEPTH as nat);
}

/// Folding a comparison of two integer constants gives the boolean of
/// that comparison, and the comparisons relate as the orderings of the
/// integers do: `l > r` is `r < l`, `l >= r` is not `l < r`, `l <= r` is
/// not `l > r`, and `l != r` is not `l == r`.
pub proof fn lemma_fold_comparisons(l: i32, r: i32)
    ensures
        fold_operation(InlinedExpression::ConstantInt(l), Operation::Equal, InlinedExpression::ConstantInt(r), TypeData::Bool)
            == Ok::<InlinedExpression, InlineError>(InlinedExpression::ConstantBool((l as int) == (r as int))),
        fold_operation(InlinedExpression::ConstantInt(l), Operation::NotEqual, InlinedExpression::ConstantInt(r), TypeData::Bool)
            == Ok::<InlinedExpression, InlineError>(InlinedExpression::ConstantBool((l as int) != (r as int))),
        fold_operation(InlinedExpression::ConstantInt(l), Operation::GreaterThan, InlinedExpression::ConstantInt(r), TypeData::Bool)
            == Ok::<InlinedExpression, InlineError>(InlinedExpression::ConstantBool((l as int) > (r as int))),
        fold_operation(InlinedExpression::ConstantInt(l), Operation::LessThan, InlinedExpression::ConstantInt(r), TypeData::Bool)
            == Ok::<InlinedExpression, InlineError>(InlinedExpression::ConstantBool((l as int) < (r as int))),
        fold_operation(InlinedExpression::ConstantInt(l), Operation::GreaterThanEqual, InlinedExpression::ConstantInt(r), TypeData::Bool)
            == Ok::<InlinedExpression, InlineError>(InlinedExpression::ConstantBool((l as int) >= (r as int))),
        fold_operation(InlinedExpression::ConstantInt(l), Operation::LessThanEqual, InlinedExpression::ConstantInt(r), TypeData::Bool)
            == Ok::<InlinedExpression, InlineError>(InlinedExpression::ConstantBool((l as int) <= (r as int))),
        fold_operation(InlinedExpression::ConstantInt(l), Operation::GreaterThan, InlinedExpression::ConstantInt(r), TypeData::Bool)
            == fold_operation(InlinedExpression::ConstantInt(r), Operation::LessThan, InlinedExpression::ConstantInt(l), TypeData::Bool),
        fold_operation(InlinedExpression::ConstantInt(l), Operation::GreaterThanEqual, InlinedExpression::ConstantInt(r), TypeData::Bool)
            == fold_operation(InlinedExpression::ConstantInt(r), Operation::LessThanEqual, InlinedExpression::ConstantInt(l), TypeData::Bool),
        fold_operation(InlinedExpression::ConstantInt(l), Operation::Equal, InlinedExpression::ConstantInt(r), TypeData::Bool)
            == fold_operation(InlinedExpression::ConstantInt(r), Operation::Equal, InlinedExpression::ConstantInt(l), TypeData::Bool),
{
}

/// Folding arithmetic on two integer constants gives the integer result
/// where it fits in an `i32` and fails with `Arithmetic` where it does not
/// or where it divides by zero; `|` and `&` on integers are bitwise.
pub proof fn lemma_fold_arithmetic(l: i32, r: i32)
    ensures
        fold_operation(InlinedExpression::ConstantInt(l), Operation::Add, InlinedExpression::ConstantInt(r), TypeData::Int)
            == if i32::MIN <= l + r <= i32::MAX {
            Ok::<InlinedExpression, InlineError>(InlinedExpression::ConstantInt((l + r) as i32))
        } else {
            Err(InlineError::Arithmetic)
        },
        fold_operation(InlinedExpression::ConstantInt(l), Operation::Sub, InlinedExpression::ConstantInt(r), TypeData::Int)
            == if i32::MIN <= l - r <= i32::MAX {
            Ok::<InlinedExpression, InlineError>(InlinedExpression::ConstantInt((l - r) as i32))
        } else {
            Err(InlineError::Arithmetic)
        },
        fold_operation(InlinedExpression::ConstantInt(l), Operation::Mul, InlinedExpression::ConstantInt(r), TypeData::Int)
            == if i32::MIN <= l * r <= i32::MAX {
            Ok::<InlinedExpression, InlineError>(InlinedExpression::ConstantInt((l * r) as i32))
        } else {
            Err(InlineError::Arithmetic)
        },
        r == 0 ==> fold_operation(InlinedExpression::ConstantInt(l), Operation::Div, InlinedExpression::ConstantInt(r), TypeData::Int)
            == Err::<InlinedExpression, InlineError>(InlineError::Arithmetic),
        0 <= l && 0 < r ==> fold_operation(InlinedExpression::ConstantInt(l), Operation::Div, InlinedExpression::ConstantInt(r), TypeData::Int)
            == Ok::<InlinedExpression, InlineError>(InlinedExpression::ConstantInt(((l as int) / (r as int)) as i32)),
        fold_operation(InlinedExpression::ConstantInt(l), Operation::Or, InlinedExpression::ConstantInt(r), TypeData::Int)
            == Ok::<InlinedExpression, InlineError>(InlinedExpression::ConstantInt(l | r)),
        fold_operation(InlinedExpression::ConstantInt(l), Operation::And, InlinedExpression::ConstantInt(r), TypeData::Int)
            == Ok::<InlinedExpression, InlineError>(InlinedExpression::ConstantInt(l & r)),
        fold_operation(InlinedExpression::ConstantInt(l), Operation::Add, InlinedExpression::ConstantInt(r), TypeData::Int)
            == fold_operation(InlinedExpression::ConstantInt(r), Operation::Add, InlinedExpression::ConstantInt(l), TypeData::Int),
        fold_operation(InlinedExpression::ConstantInt(l), Operation::Mul, InlinedExpression::ConstantInt(r), TypeData::Int)
            == fold_operation(InlinedExpression::ConstantInt(r), Operation::Mul, InlinedExpression::ConstantInt(l), TypeData::Int),
{
    assert(l * r == r * l) by (nonlinear_arith);
}

/// Folding `&` and `|` on two boolean constants gives their conjunction
/// and disjunction.
pub proof fn lemma_fold_booleans(l: bool, r: bool)
    ensures
        fold_operation(InlinedExpression::ConstantBool(l), Operation::And, InlinedExpression::ConstantBool(r), TypeData::Bool)
            == Ok::<InlinedExpression, InlineError>(InlinedExpression::ConstantBool(l && r)),
        fold_operation(InlinedExpression::ConstantBool(l), Operation::Or, InlinedExpression::ConstantBool(r), TypeData::Bool)
            == Ok::<InlinedExpression, InlineError>(InlinedExpression::ConstantBool(l || r)),
{
}

/// An operation with an operand that is not a constant is not folded: it
/// stays an operation on its operands' hashes.
pub proof fn lemma_fold_keeps_operations(x: InlinedExpression, op: Operation, y: InlinedExpression, out: TypeData)
    requires
        !(x is ConstantInt && y is ConstantInt),
        !(x is ConstantBool && y is ConstantBool),
    ensures
        fold_operation(x, op, y, out) == Ok::<InlinedExpression, InlineError>(
            InlinedExpression::Operation(inlined_hash(x), op, inlined_hash(y), out),
        ),
{
}

/// The node a call of a standard function of one argument inlines to is
/// the call of that function, by name, on that argument.
pub proof fn lemma_unary_node_calls_by_name(name: Seq<char>, a: u64)
    requires
        is_unary_stdlib(name),
    ensures
        crate::ordering::tracking::stdlib_call(unary_node(name, a)) == Some((name, seq![a])),
{
    reveal_strlit("roll_d6");
    reveal_strlit("roll_d3");
    reveal_strlit("count");
    reveal_strlit("len");
    reveal_strlit("sum");
    assert("roll_d6"@ != "roll_d3"@) by {
        assert("roll_d6"@[6] != "roll_d3"@[6]);
    }
    assert("count"@ != "roll_d6"@ && "count"@ != "roll_d3"@) by {
        assert("count"@.len() != "roll_d6"@.len());
    }
    assert("len"@ != "roll_d6"@ && "len"@ != "roll_d3"@ && "len"@ != "count"@) by {
        assert("len"@.len() != "roll_d6"@.len());
        assert("len"@.len() != "count"@.len());
    }
    assert("sum"@ != "roll_d6"@ && "sum"@ != "roll_d3"@ && "sum"@ != "count"@ && "sum"@ != "len"@) by {
        assert("sum"@.len() != "roll_d6"@.len());
        assert("sum"@.len() != "count"@.len());
        assert("sum"@[0] != "len"@[0]);
    }
}

/// A call of a standard function of two arguments whose arguments inline
/// inlines to the call of that function, by name, on the inlined arguments
/// in order.
pub proof fn lemma_binary_stdlib_calls_by_name(
    s: StackView,
    env: Seq<(Seq<char>, Seq<char>)>,
    name: Seq<char>,
    args: Seq<u64>,
    fuel: nat,
    x: InlinedExpression,
    y: InlinedExpression,
)
    requires
        is_binary_stdlib(name),
        spec_inline_arg(s, env, args, 0, fuel) == Ok::<InlinedExpression, InlineError>(x),
        spec_inline_arg(s, env, args, 1, fuel) == Ok::<InlinedExpression, InlineError>(y),
    ensures
        spec_inline_stdlib(s, env, name, args, fuel) matches Ok(e) && crate::ordering::tracking::stdlib_call(e) == Some(
            (name, seq![inlined_hash(x), inlined_hash(y)]),
        ),
{
    reveal_strlit("roll_d6");
    reveal_strlit("roll_d3");
    reveal_strlit("count");
    reveal_strlit("len");
    reveal_strlit("sum");
    reveal_strlit("filter");
    reveal_strlit("join");
    assert(!is_unary_stdlib(name)) by {
        assert(name.len() == 6 || name.len() == 4);
    }
    if name == "join"@ {
        assert("join"@ != "filter"@) by {
            assert("join"@.len() != "filter"@.len());
        }
    }
}

} // verus!
