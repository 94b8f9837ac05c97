use vstd::prelude::*;

use crate::assoc::assoc_get;
use crate::cfgbuilder::collection::{spec_variable, CollectionView};
use crate::cfgbuilder::expression::{hashed_type, HashedExpression, HashedView};
use crate::cfgbuilder::{ExpressionCollection, Identifier};
use crate::parser_output::{Literal, LiteralView, Operation, TypeData};

verus! {

/// How deep a linkage may nest: as many levels as a `u64` counts, which
/// no stored expression reaches; only a variable defined through itself
/// runs it out.
pub const LINK_DEPTH: u64 = 0xffff_ffff_ffff_ffff;

/// LinkageExpression is what remains of a hashed expression once its
/// identifiers are removed: constants, operations on linked operands, and
/// calls of the standard library on linked arguments.
#[derive(Debug)]
pub enum LinkageExpression {
    Constant(Literal, TypeData),
    Operation(Box<LinkageExpression>, Operation, Box<LinkageExpression>, TypeData),
    Function(Identifier, Vec<LinkageExpression>, TypeData),
}

/// The value of a linkage expression.
pub enum LinkView {
    Constant(LiteralView, TypeData),
    Operation(Box<LinkView>, Operation, Box<LinkView>, TypeData),
    Function(Identifier, Seq<LinkView>, TypeData),
}

/// The value of a linkage expression.
pub closed spec fn link_view(e: LinkageExpression) -> LinkView
    decreases e,
{
    match e {
        LinkageExpression::Constant(l, k) => LinkView::Constant(l@, k),
        LinkageExpression::Operation(l, op, r, k) => LinkView::Operation(
            Box::new(link_view(*l)),
            op,
            Box::new(link_view(*r)),
            k,
        ),
        LinkageExpression::Function(id, args, k) => LinkView::Function(id, link_views(args@), k),
    }
}

/// The values of a sequence of linkage expressions.
pub closed spec fn link_views(s: Seq<LinkageExpression>) -> Seq<LinkView>
    decreases s,
{
    if s.len() == 0 {
        Seq::empty()
    } else {
        link_views(s.drop_last()).push(link_view(s.last()))
    }
}

impl View for LinkageExpression {
    type V = LinkView;

    open spec fn view(&self) -> LinkView {
        link_view(*self)
    }
}

/// The type a linked expression records.
pub open spec fn link_type(e: LinkView) -> TypeData {
    match e {
        LinkView::Constant(_, k) => k,
        LinkView::Operation(_, _, _, k) => k,
        LinkView::Function(_, _, k) => k,
    }
}

/// Whether the function with identifier `id` is of the standard library.
pub open spec fn is_stdlib(c: CollectionView, id: Identifier) -> bool {
    assoc_get(c.signatures, id) matches Some(f) && f.stdlib
}

/// The linkage of `e` in the root of `c`, within `fuel` levels of nesting.
/// A constant stays; a variable or an external constant becomes the linkage
/// of the expression that defines it, which must have the variable's type;
/// an operation links its operands and a call of the standard library its
/// arguments, looked up by hash in the root. There is none for a function
/// argument, a call of a function of the program, an unbound variable, a
/// hash that is not stored, or a deeper nesting.
pub open spec fn spec_link(c: CollectionView, e: HashedView, fuel: nat) -> Option<LinkView>
    decreases fuel, 0nat,
{
    if fuel == 0 {
        None
    } else {
        match e {
            HashedView::FunctionArg(_, _, _) => None,
            HashedView::ConstantValue(l, k) => Some(LinkView::Constant(l, k)),
            HashedView::ExternalConstant(id, k) => spec_link_var(c, id, k, (fuel - 1) as nat),
            HashedView::Var(id, k) => spec_link_var(c, id, k, (fuel - 1) as nat),
            HashedView::Func(id, args, k) => if is_stdlib(c, id) {
                match spec_link_args(c, args, (fuel - 1) as nat) {
                    Some(xs) => Some(LinkView::Function(id, xs, k)),
                    None => None,
                }
            } else {
                None
            },
            HashedView::Op(l, op, r, k) => if c.data.contains_key(l) && c.data.contains_key(r) {
                match (spec_link(c, c.data[l], (fuel - 1) as nat), spec_link(c, c.data[r], (fuel - 1) as nat)) {
                    (Some(x), Some(y)) => Some(LinkView::Operation(Box::new(x), op, Box::new(y), k)),
                    _ => None,
                }
            } else {
                None
            },
        }
    }
}

/// The linkage of the expression that defines variable `id`, which must
/// have type `k`.
pub open spec fn spec_link_var(c: CollectionView, id: Identifier, k: TypeData, fuel: nat) -> Option<LinkView>
    decreases fuel, 1nat,
{
    match spec_variable(c, id) {
        Some(v) => match spec_link(c, v, fuel) {
            Some(x) => if link_type(x) == k {
                Some(x)
            } else {
                None
            },
            None => None,
        },
        None => None,
    }
}

/// The linkages of the expressions under the hashes `args`, in order.
pub open spec fn spec_link_args(c: CollectionView, args: Seq<u64>, fuel: nat) -> Option<Seq<LinkView>>
    decreases fuel, 1nat + args.len(),
{
    if args.len() == 0 {
        Some(Seq::empty())
    } else {
        match spec_link_args(c, args.drop_last(), fuel) {
            Some(xs) => if c.data.contains_key(args.last()) {
                match spec_link(c, c.data[args.last()], fuel) {
                    Some(x) => Some(xs.push(x)),
                    None => None,
                }
            } else {
                None
            },
            None => None,
        }
    }
}

impl LinkageExpression {
    /// The type of the expression.
    pub fn get_type(&self) -> (r: TypeData)
        ensures
            r == link_type(self@),
    {
        match self {
            LinkageExpression::Constant(_, kind) => *kind,
            LinkageExpression::Operation(_, _, _, kind) => *kind,
            LinkageExpression::Function(_, _, kind) => *kind,
        }
    }

    /// Links an expression of the root block of `n`, where it links.
    pub fn expr(expression: &HashedExpression, n: &ExpressionCollection) -> (r: LinkageExpression)
        requires
            spec_link(n@, expression@, LINK_DEPTH as nat) is Some,
        ensures
            Some(r@) == spec_link(n@, expression@, LINK_DEPTH as nat),
            link_type(r@) == hashed_type(expression@),
    {
        match Self::link(expression, n, LINK_DEPTH) {
            Option::Some(x) => x,
            Option::None => {
                proof {
                    assert(false);
                }
                LinkageExpression::Constant(Literal::Boolean(false), TypeData::Bool)
            },
        }
    }

    /// Links an expression of the root block of `n`; `None` where it does
    /// not link.
    pub fn try_expr(expression: &HashedExpression, n: &ExpressionCollection) -> (r: Option<LinkageExpression>)
        ensures
            link_result(r) == spec_link(n@, expression@, LINK_DEPTH as nat),
            r matches Some(x) ==> link_type(x@) == hashed_type(expression@),
    {
        Self::link(expression, n, LINK_DEPTH)
    }

    fn link(expression: &HashedExpression, n: &ExpressionCollection, fuel: u64) -> (r: Option<LinkageExpression>)
        ensures
            link_result(r) == spec_link(n@, expression@, fuel as nat),
            r matches Some(x) ==> link_type(x@) == hashed_type(expression@),
        decreases fuel, 0nat,
    {
        if fuel == 0 {
            return None;
        }
        match expression {
            HashedExpression::FunctionArg(_, _, _) => None,
            HashedExpression::ConstantValue(lit, kind) => Some(LinkageExpression::Constant(lit.duplicate(), *kind)),
            HashedExpression::Var(id, kind) => Self::link_var(id, *kind, n, fuel - 1),
            HashedExpression::ExternalConstant(id, kind) => Self::link_var(id, *kind, n, fuel - 1),
            HashedExpression::Func(id, args, kind) => {
                if !n.is_function_stdlib(id) {
                    return None;
                }
                match Self::link_args(args, n, fuel - 1) {
                    Option::Some(new_args) => Some(LinkageExpression::Function(*id, new_args, *kind)),
                    Option::None => None,
                }
            },
            HashedExpression::Op(left, op, right, kind) => {
                let le = match n.get_expr(None, left) {
                    Option::Some(e) => e,
                    Option::None => return None,
                };
                let re = match n.get_expr(None, right) {
                    Option::Some(e) => e,
                    Option::None => return None,
                };
                let l = match Self::link(le, n, fuel - 1) {
                    Option::Some(x) => x,
                    Option::None => return None,
                };
                let r = match Self::link(re, n, fuel - 1) {
                    Option::Some(x) => x,
                    Option::None => return None,
                };
                Some(LinkageExpression::Operation(Box::new(l), *op, Box::new(r), *kind))
            },
        }
    }

    fn link_var(id: &Identifier, kind: TypeData, n: &ExpressionCollection, fuel: u64) -> (r: Option<LinkageExpression>)
        ensures
            link_result(r) == spec_link_var(n@, *id, kind, fuel as nat),
            r matches Some(x) ==> link_type(x@) == kind,
        decreases fuel, 1nat,
    {
        let v = match n.find_variable(id) {
            Option::Some(v) => v,
            Option::None => return None,
        };
        match Self::link(v, n, fuel) {
            Option::Some(x) => if x.get_type() == kind {
                Some(x)
            } else {
                None
            },
            Option::None => None,
        }
    }

    fn link_args(args: &Vec<u64>, n: &ExpressionCollection, fuel: u64) -> (r: Option<Vec<LinkageExpression>>)
        ensures
            match r {
                Some(v) => Some(link_views(v@)) == spec_link_args(n@, args@, fuel as nat),
                None => spec_link_args(n@, args@, fuel as nat) is None,
            },
        decreases fuel, 1nat + args@.len(),
    {
        let mut out: Vec<LinkageExpression> = Vec::new();
        let mut i: usize = 0;
        assert(args@.take(0) =~= Seq::<u64>::empty());
        while i < args.len()
            invariant
                i <= args@.len(),
                Some(link_views(out@)) == spec_link_args(n@, args@.take(i as int), fuel as nat),
            decreases args@.len() - i,
        {
            proof {
                assert(args@.take(i + 1).drop_last() =~= args@.take(i as int));
                assert(args@.take(i + 1).last() == args@[i as int]);
            }
            let e = match n.get_expr(None, &args[i]) {
                Option::Some(e) => e,
                Option::None => {
                    proof {
                        lemma_link_args_extend(n@, args@, (i + 1) as nat, fuel as nat);
                    }
                    return None;
                },
            };
            let x = match Self::link(e, n, fuel) {
                Option::Some(x) => x,
                Option::None => {
                    proof {
                        lemma_link_args_extend(n@, args@, (i + 1) as nat, fuel as nat);
                    }
                    return None;
                },
            };
            let ghost before = out@;
            out.push(x);
            proof {
                assert(out@.drop_last() =~= before);
            }
            i = i + 1;
        }
        proof {
            assert(args@.take(args@.len() as int) =~= args@);
        }
        Some(out)
    }
}

/// Where a prefix of the arguments does not link, neither do they all.
proof fn lemma_link_args_extend(c: CollectionView, args: Seq<u64>, i: nat, fuel: nat)
    requires
        spec_link_args(c, args.take(i as int), fuel) is None,
        i <= args.len(),
    ensures
        spec_link_args(c, args, fuel) is None,
{
    if spec_link_args(c, args, fuel) is Some {
        lemma_link_args_prefix(c, args, i, fuel);
    }
}

/// The value of a linkage that may have failed.
pub open spec fn link_result(r: Option<LinkageExpression>) -> Option<LinkView> {
    match r {
        Some(x) => Some(x@),
        None => None,
    }
}

/// Where all arguments link, every prefix of them links.
proof fn lemma_link_args_prefix(c: CollectionView, args: Seq<u64>, i: nat, fuel: nat)
    requires
        spec_link_args(c, args, fuel) is Some,
        i <= args.len(),
    ensures
        spec_link_args(c, args.take(i as int), fuel) is Some,
    decreases args.len(),
{
    if i < args.len() {
        assert(args.drop_last().take(i as int) =~= args.take(i as int));
        lemma_link_args_prefix(c, args.drop_last(), i, fuel);
    } else {
        assert(args.take(i as int) =~= args);
    }
}

} // verus!
