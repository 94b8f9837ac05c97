//! Hashed expressions: block expressions whose names are reduced to
//! identifiers and whose subexpressions are referred to by hash.
use vstd::prelude::*;

use crate::hashing::{le_u64, push_str, push_u64, sea_hash, sea_hash_of, str_stream};
use crate::parser_output::{Literal, LiteralView, Operation, TypeData};

use super::identifier::Identifier;

verus! {

/// HashedExpressions are built on top of block expressions. Since the
/// block expressions have passed the type and name checks, names are
/// reduced to identifiers and nested expressions to the hashes under which
/// they are stored.
#[derive(Debug, PartialEq, Eq, Hash)]
pub enum HashedExpression {
    FunctionArg(Identifier, usize, TypeData),
    ConstantValue(Literal, TypeData),
    ExternalConstant(Identifier, TypeData),
    Var(Identifier, TypeData),
    Func(Identifier, Vec<u64>, TypeData),
    Op(u64, Operation, u64, TypeData),
}

/// The value of a hashed expression.
pub enum HashedView {
    FunctionArg(Identifier, usize, TypeData),
    ConstantValue(LiteralView, TypeData),
    ExternalConstant(Identifier, TypeData),
    Var(Identifier, TypeData),
    Func(Identifier, Seq<u64>, TypeData),
    Op(u64, Operation, u64, TypeData),
}

impl View for HashedExpression {
    type V = HashedView;

    open spec fn view(&self) -> HashedView {
        match self {
            HashedExpression::FunctionArg(i, n, k) => HashedView::FunctionArg(*i, *n, *k),
            HashedExpression::ConstantValue(l, k) => HashedView::ConstantValue(l@, *k),
            HashedExpression::ExternalConstant(i, k) => HashedView::ExternalConstant(*i, *k),
            HashedExpression::Var(i, k) => HashedView::Var(*i, *k),
            HashedExpression::Func(i, a, k) => HashedView::Func(*i, a@, *k),
            HashedExpression::Op(l, o, r, k) => HashedView::Op(*l, *o, *r, *k),
        }
    }
}

/// The type a hashed expression records.
pub open spec fn hashed_type(h: HashedView) -> TypeData {
    match h {
        HashedView::FunctionArg(_, _, k) => k,
        HashedView::ConstantValue(_, k) => k,
        HashedView::ExternalConstant(_, k) => k,
        HashedView::Var(_, k) => k,
        HashedView::Func(_, _, k) => k,
        HashedView::Op(_, _, _, k) => k,
    }
}

/// The position of a type among the variants of `TypeData`.
pub open spec fn type_index(t: TypeData) -> u64 {
    match t {
        TypeData::Bool => 0,
        TypeData::Int => 1,
        TypeData::CollectionOfBool => 2,
        TypeData::CollectionOfInt => 3,
    }
}

/// The position of an operation among the variants of `Operation`.
pub open spec fn operation_index(o: Operation) -> u64 {
    match o {
        Operation::Add => 0,
        Operation::Sub => 1,
        Operation::Mul => 2,
        Operation::Div => 3,
        Operation::Or => 4,
        Operation::And => 5,
        Operation::Equal => 6,
        Operation::NotEqual => 7,
        Operation::GreaterThan => 8,
        Operation::LessThan => 9,
        Operation::GreaterThanEqual => 10,
        Operation::LessThanEqual => 11,
    }
}

/// The bytes a `Hasher` is fed for an identifier: the variant's position
/// as a machine word, then its hashes.
pub open spec fn identifier_bytes(i: Identifier) -> Seq<u8> {
    match i {
        Identifier::Global(h) => le_u64(0) + le_u64(h),
        Identifier::Namespaced(a, b) => le_u64(1) + le_u64(a) + le_u64(b),
    }
}

/// The bytes a `Hasher` is fed for a literal.
pub open spec fn literal_bytes(l: LiteralView) -> Seq<u8> {
    match l {
        LiteralView::Number(n) => le_u64(0) + le_u64(n as u64),
        LiteralView::Boolean(b) => le_u64(1) + seq![if b { 1u8 } else { 0u8 }],
        LiteralView::EnvirBool(s) => le_u64(2) + str_stream(s),
        LiteralView::EnvirNumber(s) => le_u64(3) + str_stream(s),
    }
}

/// The bytes of a sequence of hashes: its length, then each hash.
pub open spec fn hashes_bytes(s: Seq<u64>) -> Seq<u8>
    decreases s.len(),
{
    if s.len() == 0 {
        Seq::empty()
    } else {
        hashes_bytes(s.drop_last()) + le_u64(s.last())
    }
}

/// The bytes a `Hasher` is fed for a hashed expression: the variant's
/// position as a machine word, then each field in order.
pub open spec fn hashed_bytes(h: HashedView) -> Seq<u8> {
    match h {
        HashedView::FunctionArg(i, n, k) => le_u64(0) + identifier_bytes(i) + le_u64(n as u64)
            + le_u64(type_index(k)),
        HashedView::ConstantValue(l, k) => le_u64(1) + literal_bytes(l) + le_u64(type_index(k)),
        HashedView::ExternalConstant(i, k) => le_u64(2) + identifier_bytes(i) + le_u64(type_index(k)),
        HashedView::Var(i, k) => le_u64(3) + identifier_bytes(i) + le_u64(type_index(k)),
        HashedView::Func(i, a, k) => le_u64(4) + identifier_bytes(i) + le_u64(a.len() as u64)
            + hashes_bytes(a) + le_u64(type_index(k)),
        HashedView::Op(l, o, r, k) => le_u64(5) + le_u64(l) + le_u64(operation_index(o)) + le_u64(r)
            + le_u64(type_index(k)),
    }
}

/// The hash of a hashed expression.
pub open spec fn hashed_hash(h: HashedView) -> u64 {
    sea_hash_of(hashed_bytes(h))
}

pub(crate) fn push_type_index(out: &mut Vec<u8>, t: TypeData)
    ensures
        final(out)@ == old(out)@ + le_u64(type_index(t)),
{
    let x: u64 = match t {
        TypeData::Bool => 0,
        TypeData::Int => 1,
        TypeData::CollectionOfBool => 2,
        TypeData::CollectionOfInt => 3,
    };
    push_u64(out, x);
}

pub(crate) fn push_operation_index(out: &mut Vec<u8>, o: Operation)
    ensures
        final(out)@ == old(out)@ + le_u64(operation_index(o)),
{
    let x: u64 = match o {
        Operation::Add => 0,
        Operation::Sub => 1,
        Operation::Mul => 2,
        Operation::Div => 3,
        Operation::Or => 4,
        Operation::And => 5,
        Operation::Equal => 6,
        Operation::NotEqual => 7,
        Operation::GreaterThan => 8,
        Operation::LessThan => 9,
        Operation::GreaterThanEqual => 10,
        Operation::LessThanEqual => 11,
    };
    push_u64(out, x);
}

fn push_identifier(out: &mut Vec<u8>, i: Identifier)
    ensures
        final(out)@ == old(out)@ + identifier_bytes(i),
{
    match i {
        Identifier::Global(h) => {
            push_u64(out, 0);
            push_u64(out, h);
            assert(final(out)@ =~= old(out)@ + identifier_bytes(i));
        },
        Identifier::Namespaced(a, b) => {
            push_u64(out, 1);
            push_u64(out, a);
            push_u64(out, b);
            assert(final(out)@ =~= old(out)@ + identifier_bytes(i));
        },
    }
}

pub(crate) fn push_literal(out: &mut Vec<u8>, l: &Literal)
    ensures
        final(out)@ == old(out)@ + literal_bytes(l@),
{
    match l {
        Literal::Number(n) => {
            push_u64(out, 0);
            push_u64(out, *n as u64);
        },
        Literal::Boolean(b) => {
            push_u64(out, 1);
            out.push(if *b { 1u8 } else { 0u8 });
        },
        Literal::EnvirBool(s) => {
            push_u64(out, 2);
            push_str(out, s.as_str());
        },
        Literal::EnvirNumber(s) => {
            push_u64(out, 3);
            push_str(out, s.as_str());
        },
    }
    assert(final(out)@ =~= old(out)@ + literal_bytes(l@));
}

fn push_hashes(out: &mut Vec<u8>, s: &Vec<u64>)
    ensures
        final(out)@ == old(out)@ + le_u64(s@.len() as u64) + hashes_bytes(s@),
{
    push_u64(out, s.len() as u64);
    let ghost start = out@;
    let n = s.len();
    let mut i: usize = 0;
    assert(hashes_bytes(s@.take(0)) =~= Seq::<u8>::empty());
    assert(out@ =~= start + hashes_bytes(s@.take(0)));
    while i < n
        invariant
            n == s@.len(),
            i <= n,
            out@ == start + hashes_bytes(s@.take(i as int)),
            start == old(out)@ + le_u64(s@.len() as u64),
        decreases n - i,
    {
        push_u64(out, s[i]);
        assert(s@.take(i + 1).drop_last() =~= s@.take(i as int));
        assert(out@ =~= start + hashes_bytes(s@.take(i + 1)));
        i = i + 1;
    }
    assert(s@.take(n as int) =~= s@);
}

impl HashedExpression {
    /// The type of this expression.
    pub fn get_type(&self) -> (r: TypeData)
        ensures
            r == hashed_type(self@),
    {
        match self {
            HashedExpression::FunctionArg(_, _, op) => *op,
            HashedExpression::ConstantValue(_, op) => *op,
            HashedExpression::ExternalConstant(_, op) => *op,
            HashedExpression::Var(_, op) => *op,
            HashedExpression::Func(_, _, op) => *op,
            HashedExpression::Op(_, _, _, op) => *op,
        }
    }

    /// The hash of the expression held, if any.
    pub fn hash(h: &Option<HashedExpression>) -> (r: Option<u64>)
        ensures
            r == match h {
                Some(e) => Some(hashed_hash(e@)),
                None => None::<u64>,
            },
    {
        match h {
            Option::Some(e) => Some(e.get_hash()),
            Option::None => None,
        }
    }

    /// Feeds the expression to a byte stream, field by field.
    fn push_bytes(&self, out: &mut Vec<u8>)
        ensures
            final(out)@ == old(out)@ + hashed_bytes(self@),
    {
        match self {
            HashedExpression::FunctionArg(i, n, k) => {
                push_u64(out, 0);
                push_identifier(out, *i);
                push_u64(out, *n as u64);
                push_type_index(out, *k);
            },
            HashedExpression::ConstantValue(l, k) => {
                push_u64(out, 1);
                push_literal(out, l);
                push_type_index(out, *k);
            },
            HashedExpression::ExternalConstant(i, k) => {
                push_u64(out, 2);
                push_identifier(out, *i);
                push_type_index(out, *k);
            },
            HashedExpression::Var(i, k) => {
                push_u64(out, 3);
                push_identifier(out, *i);
                push_type_index(out, *k);
            },
            HashedExpression::Func(i, a, k) => {
                push_u64(out, 4);
                push_identifier(out, *i);
                push_hashes(out, a);
                push_type_index(out, *k);
            },
            HashedExpression::Op(l, o, r, k) => {
                push_u64(out, 5);
                push_u64(out, *l);
                push_operation_index(out, *o);
                push_u64(out, *r);
                push_type_index(out, *k);
            },
        }
        assert(final(out)@ =~= old(out)@ + hashed_bytes(self@));
    }

    /// The SeaHash of the expression, as its derived `Hash` feeds a
    /// `SeaHasher`.
    pub fn get_hash(&self) -> (r: u64)
        ensures
            r == hashed_hash(self@),
    {
        let mut v: Vec<u8> = Vec::new();
        self.push_bytes(&mut v);
        assert(v@ =~= hashed_bytes(self@));
        sea_hash(v.as_slice())
    }

    /// Reads argument `index` of a function invocation: its hash where the
    /// expression is an invocation with that many arguments, else `None`.
    pub fn get_func_arg(index: &usize, arg: &HashedExpression) -> (r: Option<u64>)
        ensures
            r == match arg@ {
                HashedView::Func(_, args, _) => if (*index as int) < args.len() {
                    Some(args[*index as int])
                } else {
                    None::<u64>
                },
                _ => None::<u64>,
            },
    {
        match arg {
            HashedExpression::Func(_, args, _) => {
                if *index < args.len() {
                    Some(args[*index])
                } else {
                    None
                }
            },
            _ => None,
        }
    }

    /// A copy of this expression.
    pub fn duplicate(&self) -> (r: HashedExpression)
        ensures
            r@ == self@,
    {
        match self {
            HashedExpression::FunctionArg(i, n, k) => HashedExpression::FunctionArg(*i, *n, *k),
            HashedExpression::ConstantValue(l, k) => HashedExpression::ConstantValue(l.duplicate(), *k),
            HashedExpression::ExternalConstant(i, k) => HashedExpression::ExternalConstant(*i, *k),
            HashedExpression::Var(i, k) => HashedExpression::Var(*i, *k),
            HashedExpression::Func(i, a, k) => HashedExpression::Func(*i, a.clone(), *k),
            HashedExpression::Op(l, o, r, k) => HashedExpression::Op(*l, *o, *r, *k),
        }
    }
}

} // verus!
