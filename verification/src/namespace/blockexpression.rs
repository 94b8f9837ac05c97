//! Block expressions: lowered expressions whose every node carries its type.
use vstd::prelude::*;

use crate::parser_output::{literal_type, GetType, Literal, LiteralView, Operation, TypeData};
use crate::cfgbuilder::expression::{
    literal_bytes, operation_index, push_literal, push_operation_index, push_type_index, type_index,
};
use crate::hashing::{le_u64, push_str, push_u64, sea_hash, sea_hash_of, str_stream};
use crate::printing::{block_text, op_text, type_text};

verus! {

/// BlockExpression is the result of expression lowering. Names are
/// resolved to what they denote, and every node records its type.
#[derive(Debug, PartialEq, Eq, Hash)]
pub enum BlockExpression {
    FunctionArg(String, TypeData),
    ConstantValue(Literal, TypeData),
    ExternalConstant(String, TypeData),
    Func(String, Vec<BlockExpression>, TypeData),
    Var(String, TypeData),
    Op(Box<BlockExpression>, Operation, Box<BlockExpression>, TypeData),
}

/// The value of a block expression.
pub enum BlockView {
    FunctionArg(Seq<char>, TypeData),
    ConstantValue(LiteralView, TypeData),
    ExternalConstant(Seq<char>, TypeData),
    Func(Seq<char>, Seq<BlockView>, TypeData),
    Var(Seq<char>, TypeData),
    Op(Box<BlockView>, Operation, Box<BlockView>, TypeData),
}

/// The value of a block expression.
pub open spec fn view_block(b: BlockExpression) -> BlockView
    decreases b,
{
    match b {
        BlockExpression::FunctionArg(n, k) => BlockView::FunctionArg(n@, k),
        BlockExpression::ConstantValue(l, k) => BlockView::ConstantValue(l@, k),
        BlockExpression::ExternalConstant(n, k) => BlockView::ExternalConstant(n@, k),
        BlockExpression::Func(n, args, k) => BlockView::Func(n@, view_blocks(args@), k),
        BlockExpression::Var(n, k) => BlockView::Var(n@, k),
        BlockExpression::Op(l, op, r, k) => BlockView::Op(
            Box::new(view_block(*l)),
            op,
            Box::new(view_block(*r)),
            k,
        ),
    }
}

/// The values of a sequence of block expressions.
pub open spec fn view_blocks(s: Seq<BlockExpression>) -> Seq<BlockView>
    decreases s,
{
    if s.len() == 0 {
        Seq::empty()
    } else {
        seq![view_block(s[0])] + view_blocks(s.drop_first())
    }
}

/// `view_blocks` maps each block expression to its value.
pub proof fn lemma_view_blocks(s: Seq<BlockExpression>)
    ensures
        view_blocks(s).len() == s.len(),
        forall|i: int| 0 <= i < s.len() ==> #[trigger] view_blocks(s)[i] == view_block(s[i]),
    decreases s.len(),
{
    if s.len() > 0 {
        lemma_view_blocks(s.drop_first());
        assert forall|i: int| 0 <= i < s.len() implies #[trigger] view_blocks(s)[i] == view_block(s[i]) by {
            if i > 0 {
                assert(s.drop_first()[i - 1] == s[i]);
            }
        }
    }
}

impl View for BlockExpression {
    type V = BlockView;

    open spec fn view(&self) -> BlockView {
        view_block(*self)
    }
}

/// The type a block expression records for itself.
pub open spec fn block_type(b: BlockView) -> TypeData {
    match b {
        BlockView::FunctionArg(_, k) => k,
        BlockView::ConstantValue(_, k) => k,
        BlockView::ExternalConstant(_, k) => k,
        BlockView::Func(_, _, k) => k,
        BlockView::Var(_, k) => k,
        BlockView::Op(_, _, _, k) => k,
    }
}

/// The typing rules of the binary operations: the type of `l op r`, or
/// `None` where the operation is illegal on those types.
///
/// Arithmetic takes integers or collections of integers, comparisons
/// yield booleans (collections of booleans when a side is a collection),
/// and `&`/`|` take booleans or collections of booleans.
pub open spec fn op_type(op: Operation, l: TypeData, r: TypeData) -> Option<TypeData> {
    match op {
        Operation::Add | Operation::Sub | Operation::Mul | Operation::Div => match (l, r) {
            (TypeData::Int, TypeData::Int) => Some(TypeData::Int),
            (TypeData::Int, TypeData::CollectionOfInt) => Some(TypeData::CollectionOfInt),
            (TypeData::CollectionOfInt, TypeData::Int) => Some(TypeData::Int),
            (TypeData::CollectionOfInt, TypeData::CollectionOfInt) => Some(TypeData::CollectionOfInt),
            _ => None,
        },
        Operation::Equal
        | Operation::NotEqual
        | Operation::GreaterThan
        | Operation::LessThan
        | Operation::GreaterThanEqual
        | Operation::LessThanEqual => match (l, r) {
            (TypeData::Int, TypeData::Int) => Some(TypeData::Bool),
            (TypeData::Int, TypeData::CollectionOfInt) => Some(TypeData::CollectionOfBool),
            (TypeData::CollectionOfInt, TypeData::Int) => Some(TypeData::CollectionOfBool),
            (TypeData::CollectionOfInt, TypeData::CollectionOfInt) => Some(TypeData::CollectionOfBool),
            _ => None,
        },
        Operation::Or | Operation::And => match (l, r) {
            (TypeData::Bool, TypeData::Bool) => Some(TypeData::Bool),
            (TypeData::Bool, TypeData::CollectionOfBool) => Some(TypeData::CollectionOfBool),
            (TypeData::CollectionOfBool, TypeData::Bool) => Some(TypeData::CollectionOfBool),
            (TypeData::CollectionOfBool, TypeData::CollectionOfBool) => Some(TypeData::CollectionOfBool),
            _ => None,
        },
    }
}

/// Computes `op_type`.
pub fn operation_type(op: Operation, l: TypeData, r: TypeData) -> (t: Option<TypeData>)
    ensures
        t == op_type(op, l, r),
{
    match op {
        Operation::Add | Operation::Sub | Operation::Mul | Operation::Div => match (l, r) {
            (TypeData::Int, TypeData::Int) => Some(TypeData::Int),
            (TypeData::Int, TypeData::CollectionOfInt) => Some(TypeData::CollectionOfInt),
            (TypeData::CollectionOfInt, TypeData::Int) => Some(TypeData::Int),
            (TypeData::CollectionOfInt, TypeData::CollectionOfInt) => Some(TypeData::CollectionOfInt),
            _ => None,
        },
        Operation::Equal
        | Operation::NotEqual
        | Operation::GreaterThan
        | Operation::LessThan
        | Operation::GreaterThanEqual
        | Operation::LessThanEqual => match (l, r) {
            (TypeData::Int, TypeData::Int) => Some(TypeData::Bool),
            (TypeData::Int, TypeData::CollectionOfInt) => Some(TypeData::CollectionOfBool),
            (TypeData::CollectionOfInt, TypeData::Int) => Some(TypeData::CollectionOfBool),
            (TypeData::CollectionOfInt, TypeData::CollectionOfInt) => Some(TypeData::CollectionOfBool),
            _ => None,
        },
        Operation::Or | Operation::And => match (l, r) {
            (TypeData::Bool, TypeData::Bool) => Some(TypeData::Bool),
            (TypeData::Bool, TypeData::CollectionOfBool) => Some(TypeData::CollectionOfBool),
            (TypeData::CollectionOfBool, TypeData::Bool) => Some(TypeData::CollectionOfBool),
            (TypeData::CollectionOfBool, TypeData::CollectionOfBool) => Some(TypeData::CollectionOfBool),
            _ => None,
        },
    }
}

impl GetType for BlockExpression {
    fn requires_namespace(&self) -> (r: bool)
        ensures
            r == false,
    {
        false
    }

    /// The type the block expression records; it is always known.
    fn get_type(&self) -> (r: Result<TypeData, String>)
        ensures
            r == Ok::<TypeData, String>(block_type(self@)),
    {
        match self {
            BlockExpression::FunctionArg(_, kind) => Ok(*kind),
            BlockExpression::ConstantValue(_, kind) => Ok(*kind),
            BlockExpression::ExternalConstant(_, kind) => Ok(*kind),
            BlockExpression::Func(_, _, kind) => Ok(*kind),
            BlockExpression::Var(_, kind) => Ok(*kind),
            BlockExpression::Op(_, _, _, kind) => Ok(*kind),
        }
    }
}

/// The bytes a `Hasher` is fed for a block expression: the variant's
/// position as a machine word, then each field in order; names end in the
/// `0xff` terminator, and the arguments of a call follow their number.
pub open spec fn block_bytes(b: BlockView) -> Seq<u8>
    decreases b,
{
    match b {
        BlockView::FunctionArg(n, k) => le_u64(0) + str_stream(n) + le_u64(type_index(k)),
        BlockView::ConstantValue(l, k) => le_u64(1) + literal_bytes(l) + le_u64(type_index(k)),
        BlockView::ExternalConstant(n, k) => le_u64(2) + str_stream(n) + le_u64(type_index(k)),
        BlockView::Func(n, args, k) => le_u64(3) + str_stream(n) + le_u64(args.len() as u64) + blocks_bytes(args)
            + le_u64(type_index(k)),
        BlockView::Var(n, k) => le_u64(4) + str_stream(n) + le_u64(type_index(k)),
        BlockView::Op(l, o, r, k) => le_u64(5) + block_bytes(*l) + le_u64(operation_index(o)) + block_bytes(*r)
            + le_u64(type_index(k)),
    }
}

/// The bytes of a sequence of block expressions, one after the other.
pub open spec fn blocks_bytes(s: Seq<BlockView>) -> Seq<u8>
    decreases s,
{
    if s.len() == 0 {
        Seq::empty()
    } else {
        blocks_bytes(s.drop_last()) + block_bytes(s.last())
    }
}

/// Appends the bytes of a block expression.
#[verifier::rlimit(60)]
fn push_block(out: &mut Vec<u8>, b: &BlockExpression)
    ensures
        final(out)@ == old(out)@ + block_bytes(b@),
    decreases b,
{
    match b {
        BlockExpression::FunctionArg(n, k) => {
            push_u64(out, 0);
            push_str(out, n.as_str());
            push_type_index(out, *k);
            assert(final(out)@ =~= old(out)@ + block_bytes(b@));
        },
        BlockExpression::ConstantValue(l, k) => {
            push_u64(out, 1);
            push_literal(out, l);
            push_type_index(out, *k);
            assert(final(out)@ =~= old(out)@ + block_bytes(b@));
        },
        BlockExpression::ExternalConstant(n, k) => {
            push_u64(out, 2);
            push_str(out, n.as_str());
            push_type_index(out, *k);
            assert(final(out)@ =~= old(out)@ + block_bytes(b@));
        },
        BlockExpression::Func(n, args, k) => {
            push_u64(out, 3);
            push_str(out, n.as_str());
            proof {
                lemma_view_blocks(args@);
            }
            push_u64(out, args.len() as u64);
            push_blocks(out, args);
            push_type_index(out, *k);
            assert(final(out)@ =~= old(out)@ + block_bytes(b@));
        },
        BlockExpression::Var(n, k) => {
            push_u64(out, 4);
            push_str(out, n.as_str());
            push_type_index(out, *k);
            assert(final(out)@ =~= old(out)@ + block_bytes(b@));
        },
        BlockExpression::Op(l, o, r, k) => {
            push_u64(out, 5);
            push_block(out, l);
            push_operation_index(out, *o);
            push_block(out, r);
            push_type_index(out, *k);
            assert(final(out)@ =~= old(out)@ + block_bytes(b@));
        },
    }
}

/// Appends the bytes of block expressions, one after the other.
fn push_blocks(out: &mut Vec<u8>, v: &Vec<BlockExpression>)
    ensures
        final(out)@ == old(out)@ + blocks_bytes(view_blocks(v@)),
    decreases v,
{
    let n = v.len();
    assert(v@.take(0) =~= Seq::<BlockExpression>::empty());
    for i in 0..n
        invariant
            n == v@.len(),
            out@ == old(out)@ + blocks_bytes(view_blocks(v@.take(i as int))),
    {
        proof {
            assert(decreases_to!(v => v@[i as int]));
            lemma_view_blocks(v@.take(i + 1));
            lemma_view_blocks(v@.take(i as int));
            assert(view_blocks(v@.take(i + 1)) =~= view_blocks(v@.take(i as int)).push(view_block(v@[i as int])));
            assert(view_blocks(v@.take(i + 1)).drop_last() =~= view_blocks(v@.take(i as int)));
        }
        push_block(out, &v[i]);
        assert(out@ =~= old(out)@ + blocks_bytes(view_blocks(v@.take(i + 1))));
    }
    assert(v@.take(n as int) =~= v@);
}

impl BlockExpression {
    /// The SeaHash of the bytes the expression feeds a hasher.
    pub fn get_hash(&self) -> (r: u64)
        ensures
            r == sea_hash_of(block_bytes(self@)),
    {
        let mut v: Vec<u8> = Vec::new();
        push_block(&mut v, self);
        assert(v@ =~= block_bytes(self@));
        sea_hash(v.as_slice())
    }

    /// The type this block expression records.
    pub fn kind(&self) -> (t: TypeData)
        ensures
            t == block_type(self@),
    {
        match self {
            BlockExpression::FunctionArg(_, kind) => *kind,
            BlockExpression::ConstantValue(_, kind) => *kind,
            BlockExpression::ExternalConstant(_, kind) => *kind,
            BlockExpression::Func(_, _, kind) => *kind,
            BlockExpression::Var(_, kind) => *kind,
            BlockExpression::Op(_, _, _, kind) => *kind,
        }
    }

    /// A constant value built from a literal, typed as the literal is.
    pub fn lit(arg: &Literal) -> (r: Result<BlockExpression, String>)
        ensures
            r matches Ok(b) && b@ == BlockView::ConstantValue(arg@, literal_type(arg@)),
    {
        let kind = match arg.get_type() {
            Ok(k) => k,
            Err(e) => return Err(e),
        };
        Ok(BlockExpression::ConstantValue(arg.duplicate(), kind))
    }

    /// A reference to a local variable of the given type.
    pub fn var(arg: String, kind: TypeData) -> (r: Result<BlockExpression, String>)
        ensures
            r matches Ok(b) && b@ == BlockView::Var(arg@, kind),
    {
        Ok(BlockExpression::Var(arg, kind))
    }

    /// A function invocation returning `ret`.
    pub fn func(name: String, args: Vec<BlockExpression>, ret: TypeData) -> (r: Result<BlockExpression, String>)
        ensures
            r matches Ok(b) && b@ == BlockView::Func(name@, view_blocks(args@), ret),
    {
        Ok(BlockExpression::Func(name, args, ret))
    }

    /// `left op right`, typed by the operation's typing rules; an
    /// operation illegal on the operands' types is an error.
    pub fn op(left: BlockExpression, op: Operation, right: BlockExpression) -> (r: Result<BlockExpression, String>)
        ensures
            match op_type(op, block_type(left@), block_type(right@)) {
                Some(t) => r matches Ok(b) && b@ == BlockView::Op(Box::new(left@), op, Box::new(right@), t),
                None => r matches Err(e) && e@ == op_error_text(left@, op, right@),
            },
    {
        let lt = left.kind();
        let rt = right.kind();
        match operation_type(op, lt, rt) {
            Some(t) => Ok(BlockExpression::Op(Box::new(left), op, Box::new(right), t)),
            None => Err(type_error_message(&left, op, &right)),
        }
    }

    /// A copy of this block expression.
    pub fn duplicate(&self) -> (r: BlockExpression)
        ensures
            r@ == self@,
        decreases self,
    {
        match self {
            BlockExpression::FunctionArg(n, k) => BlockExpression::FunctionArg(n.clone(), *k),
            BlockExpression::ConstantValue(l, k) => BlockExpression::ConstantValue(l.duplicate(), *k),
            BlockExpression::ExternalConstant(n, k) => BlockExpression::ExternalConstant(n.clone(), *k),
            BlockExpression::Func(n, args, k) => {
                let out = duplicate_blocks(args);
                BlockExpression::Func(n.clone(), out, *k)
            },
            BlockExpression::Var(n, k) => BlockExpression::Var(n.clone(), *k),
            BlockExpression::Op(l, op, r, k) => {
                let lb = l.duplicate();
                let rb = r.duplicate();
                BlockExpression::Op(Box::new(lb), *op, Box::new(rb), *k)
            },
        }
    }
}

/// Copies of a sequence of block expressions.
pub fn duplicate_blocks(v: &Vec<BlockExpression>) -> (r: Vec<BlockExpression>)
    ensures
        view_blocks(r@) == view_blocks(v@),
    decreases v,
{
    let mut out: Vec<BlockExpression> = Vec::new();
    let n = v.len();
    for i in 0..n
        invariant
            n == v@.len(),
            out@.len() == i,
            forall|j: int| 0 <= j < i ==> view_block(#[trigger] out@[j]) == view_block(v@[j]),
    {
        proof {
            assert(decreases_to!(v => v@[i as int]));
        }
        let b = v[i].duplicate();
        out.push(b);
    }
    proof {
        lemma_view_blocks(out@);
        lemma_view_blocks(v@);
    }
    assert(view_blocks(out@) =~= view_blocks(v@));
    out
}

/// The message for an operation that is illegal on its operands' types:
/// the expression, then the two types and the operation.
pub open spec fn op_error_text(l: BlockView, op: Operation, r: BlockView) -> Seq<char> {
    "Type Error. Expression: ("@ + block_text(l) + " "@ + op_text(op) + " "@ + block_text(r) + ") is illegal. "@
        + type_text(block_type(l)) + " cannot "@ + op_text(op) + " with "@ + type_text(block_type(r))
}

/// Builds `op_error_text`.
fn type_error_message(left: &BlockExpression, op: Operation, right: &BlockExpression) -> (s: String)
    ensures
        s@ == op_error_text(left@, op, right@),
{
    let mut s = String::from_str("Type Error. Expression: (");
    left.write_to(&mut s);
    s.append(" ");
    s.append(op.as_text());
    s.append(" ");
    right.write_to(&mut s);
    s.append(") is illegal. ");
    let lt = left.kind().to_string();
    s.append(lt.as_str());
    s.append(" cannot ");
    s.append(op.as_text());
    s.append(" with ");
    let rt = right.kind().to_string();
    s.append(rt.as_str());
    assert(s@ =~= op_error_text(left@, op, right@));
    s
}

} // verus!
