//! Ordered expressions: the inlined expressions, each with its ordering
//! data, as nodes of the dependency graph.
use vstd::prelude::*;

use crate::parser_output::{Operation, TypeData};

use super::matcher::{Match, MatchTrait};
use super::ord::{
    lemma_position, search_for_index, swap_source, with_sink, without_sink, OrdTrait, OrdType, OrdView,
};

verus! {

/// The standard functions a node can compute.
#[derive(Clone, Copy, Debug, PartialEq, Eq, Structural)]
pub enum StdKind {
    D6,
    D3,
    Filter,
    Count,
    Len,
    Join,
    Sum,
    Max,
    Min,
}

/// What a node computes.
pub enum Shape {
    StdLib(StdKind),
    Bool(bool),
    Int(i32),
    Op(Operation),
    Final,
}

/// The value of an ordered expression: what it computes, and its ordering
/// data.
pub struct NodeView {
    pub shape: Shape,
    pub ord: OrdView,
}

/// Constant values.
#[derive(Debug, PartialEq, Eq, Hash)]
pub enum ConstantValue {
    Bool(bool, OrdType),
    Int(i32, OrdType),
}

/// Calls of the standard library.
#[derive(Debug, PartialEq, Eq, Hash)]
pub enum StdLibraryFunc {
    D6(OrdType),
    D3(OrdType),
    Filter(OrdType),
    Count(OrdType),
    Len(OrdType),
    Join(OrdType),
    Sum(OrdType),
    Max(OrdType),
    Min(OrdType),
}

/// Operations.
#[derive(Debug, PartialEq, Eq, Hash)]
pub enum Op {
    Add(OrdType),
    Sub(OrdType),
    Mul(OrdType),
    Div(OrdType),
    Equal(OrdType),
    NotEqual(OrdType),
    GreaterThan(OrdType),
    GreaterThanEqual(OrdType),
    LessThan(OrdType),
    LessThanEqual(OrdType),
    Or(OrdType),
    And(OrdType),
}

/// Various expressions, and the final node that reads the result.
#[derive(Debug, PartialEq, Eq, Hash)]
pub enum OrderedExpression {
    StdLib(StdLibraryFunc),
    Constant(ConstantValue),
    Op(Op),
    Final(OrdType),
}

/// The function a standard library node computes.
pub open spec fn std_kind(f: StdLibraryFunc) -> StdKind {
    match f {
        StdLibraryFunc::D6(_) => StdKind::D6,
        StdLibraryFunc::D3(_) => StdKind::D3,
        StdLibraryFunc::Filter(_) => StdKind::Filter,
        StdLibraryFunc::Count(_) => StdKind::Count,
        StdLibraryFunc::Len(_) => StdKind::Len,
        StdLibraryFunc::Join(_) => StdKind::Join,
        StdLibraryFunc::Sum(_) => StdKind::Sum,
        StdLibraryFunc::Max(_) => StdKind::Max,
        StdLibraryFunc::Min(_) => StdKind::Min,
    }
}

/// The ordering data of a standard library node.
pub open spec fn std_ord(f: StdLibraryFunc) -> OrdType {
    match f {
        StdLibraryFunc::D6(x) | StdLibraryFunc::D3(x) | StdLibraryFunc::Filter(x) | StdLibraryFunc::Count(x)
        | StdLibraryFunc::Len(x) | StdLibraryFunc::Join(x) | StdLibraryFunc::Sum(x) | StdLibraryFunc::Max(x)
        | StdLibraryFunc::Min(x) => x,
    }
}

/// The operation an operation node computes.
pub open spec fn op_kind(o: Op) -> Operation {
    match o {
        Op::Add(_) => Operation::Add,
        Op::Sub(_) => Operation::Sub,
        Op::Mul(_) => Operation::Mul,
        Op::Div(_) => Operation::Div,
        Op::Equal(_) => Operation::Equal,
        Op::NotEqual(_) => Operation::NotEqual,
        Op::GreaterThan(_) => Operation::GreaterThan,
        Op::GreaterThanEqual(_) => Operation::GreaterThanEqual,
        Op::LessThan(_) => Operation::LessThan,
        Op::LessThanEqual(_) => Operation::LessThanEqual,
        Op::Or(_) => Operation::Or,
        Op::And(_) => Operation::And,
    }
}

/// The ordering data of an operation node.
pub open spec fn op_ord(o: Op) -> OrdType {
    match o {
        Op::Add(x) | Op::Sub(x) | Op::Mul(x) | Op::Div(x) | Op::Equal(x) | Op::NotEqual(x) | Op::GreaterThan(x)
        | Op::GreaterThanEqual(x) | Op::LessThan(x) | Op::LessThanEqual(x) | Op::Or(x) | Op::And(x) => x,
    }
}

impl View for OrderedExpression {
    type V = NodeView;

    open spec fn view(&self) -> NodeView {
        match self {
            OrderedExpression::StdLib(f) => NodeView { shape: Shape::StdLib(std_kind(*f)), ord: std_ord(*f)@ },
            OrderedExpression::Constant(ConstantValue::Bool(b, x)) => NodeView { shape: Shape::Bool(*b), ord: x@ },
            OrderedExpression::Constant(ConstantValue::Int(i, x)) => NodeView { shape: Shape::Int(*i), ord: x@ },
            OrderedExpression::Op(o) => NodeView { shape: Shape::Op(op_kind(*o)), ord: op_ord(*o)@ },
            OrderedExpression::Final(x) => NodeView { shape: Shape::Final, ord: x@ },
        }
    }
}

impl StdLibraryFunc {
    /// The node computing `k` with ordering data `o`.
    pub fn build(k: StdKind, o: OrdType) -> (r: StdLibraryFunc)
        ensures
            std_kind(r) == k,
            std_ord(r)@ == o@,
    {
        match k {
            StdKind::D6 => StdLibraryFunc::D6(o),
            StdKind::D3 => StdLibraryFunc::D3(o),
            StdKind::Filter => StdLibraryFunc::Filter(o),
            StdKind::Count => StdLibraryFunc::Count(o),
            StdKind::Len => StdLibraryFunc::Len(o),
            StdKind::Join => StdLibraryFunc::Join(o),
            StdKind::Sum => StdLibraryFunc::Sum(o),
            StdKind::Max => StdLibraryFunc::Max(o),
            StdKind::Min => StdLibraryFunc::Min(o),
        }
    }

    /// The function computed.
    pub fn kind(&self) -> (r: StdKind)
        ensures
            r == std_kind(*self),
    {
        match self {
            StdLibraryFunc::D6(_) => StdKind::D6,
            StdLibraryFunc::D3(_) => StdKind::D3,
            StdLibraryFunc::Filter(_) => StdKind::Filter,
            StdLibraryFunc::Count(_) => StdKind::Count,
            StdLibraryFunc::Len(_) => StdKind::Len,
            StdLibraryFunc::Join(_) => StdKind::Join,
            StdLibraryFunc::Sum(_) => StdKind::Sum,
            StdLibraryFunc::Max(_) => StdKind::Max,
            StdLibraryFunc::Min(_) => StdKind::Min,
        }
    }

    /// The ordering data.
    pub fn ord(&self) -> (r: &OrdType)
        ensures
            *r == std_ord(*self),
    {
        match self {
            StdLibraryFunc::D6(x) => x,
            StdLibraryFunc::D3(x) => x,
            StdLibraryFunc::Filter(x) => x,
            StdLibraryFunc::Count(x) => x,
            StdLibraryFunc::Len(x) => x,
            StdLibraryFunc::Join(x) => x,
            StdLibraryFunc::Sum(x) => x,
            StdLibraryFunc::Max(x) => x,
            StdLibraryFunc::Min(x) => x,
        }
    }

    /// The ordering data, to be changed in place.
    pub fn ord_mut(&mut self) -> (r: &mut OrdType)
        ensures
            *r == std_ord(*old(self)),
            std_kind(*final(self)) == std_kind(*old(self)),
            std_ord(*final(self)) == *final(r),
    {
        match self {
            StdLibraryFunc::D6(x) => x,
            StdLibraryFunc::D3(x) => x,
            StdLibraryFunc::Filter(x) => x,
            StdLibraryFunc::Count(x) => x,
            StdLibraryFunc::Len(x) => x,
            StdLibraryFunc::Join(x) => x,
            StdLibraryFunc::Sum(x) => x,
            StdLibraryFunc::Max(x) => x,
            StdLibraryFunc::Min(x) => x,
        }
    }
}

impl Op {
    /// The node computing `op` with ordering data `o`.
    pub fn build(op: Operation, o: OrdType) -> (r: Op)
        ensures
            op_kind(r) == op,
            op_ord(r)@ == o@,
    {
        match op {
            Operation::Add => Op::Add(o),
            Operation::Sub => Op::Sub(o),
            Operation::Mul => Op::Mul(o),
            Operation::Div => Op::Div(o),
            Operation::Equal => Op::Equal(o),
            Operation::NotEqual => Op::NotEqual(o),
            Operation::GreaterThan => Op::GreaterThan(o),
            Operation::GreaterThanEqual => Op::GreaterThanEqual(o),
            Operation::LessThan => Op::LessThan(o),
            Operation::LessThanEqual => Op::LessThanEqual(o),
            Operation::Or => Op::Or(o),
            Operation::And => Op::And(o),
        }
    }

    /// The operation computed.
    pub fn kind(&self) -> (r: Operation)
        ensures
            r == op_kind(*self),
    {
        match self {
            Op::Add(_) => Operation::Add,
            Op::Sub(_) => Operation::Sub,
            Op::Mul(_) => Operation::Mul,
            Op::Div(_) => Operation::Div,
            Op::Equal(_) => Operation::Equal,
            Op::NotEqual(_) => Operation::NotEqual,
            Op::GreaterThan(_) => Operation::GreaterThan,
            Op::GreaterThanEqual(_) => Operation::GreaterThanEqual,
            Op::LessThan(_) => Operation::LessThan,
            Op::LessThanEqual(_) => Operation::LessThanEqual,
            Op::Or(_) => Operation::Or,
            Op::And(_) => Operation::And,
        }
    }

    /// The ordering data.
    pub fn ord(&self) -> (r: &OrdType)
        ensures
            *r == op_ord(*self),
    {
        match self {
            Op::Add(x) => x,
            Op::Sub(x) => x,
            Op::Mul(x) => x,
            Op::Div(x) => x,
            Op::Equal(x) => x,
            Op::NotEqual(x) => x,
            Op::GreaterThan(x) => x,
            Op::GreaterThanEqual(x) => x,
            Op::LessThan(x) => x,
            Op::LessThanEqual(x) => x,
            Op::Or(x) => x,
            Op::And(x) => x,
        }
    }

    /// The ordering data, to be changed in place.
    pub fn ord_mut(&mut self) -> (r: &mut OrdType)
        ensures
            *r == op_ord(*old(self)),
            op_kind(*final(self)) == op_kind(*old(self)),
            op_ord(*final(self)) == *final(r),
    {
        match self {
            Op::Add(x) => x,
            Op::Sub(x) => x,
            Op::Mul(x) => x,
            Op::Div(x) => x,
            Op::Equal(x) => x,
            Op::NotEqual(x) => x,
            Op::GreaterThan(x) => x,
            Op::GreaterThanEqual(x) => x,
            Op::LessThan(x) => x,
            Op::LessThanEqual(x) => x,
            Op::Or(x) => x,
            Op::And(x) => x,
        }
    }
}

impl ConstantValue {
    /// The ordering data.
    pub fn ord(&self) -> (r: &OrdType)
        ensures
            *r == match *self {
                ConstantValue::Bool(_, x) => x,
                ConstantValue::Int(_, x) => x,
            },
    {
        match self {
            ConstantValue::Bool(_, x) => x,
            ConstantValue::Int(_, x) => x,
        }
    }

    /// The ordering data, to be changed in place.
    pub fn ord_mut(&mut self) -> (r: &mut OrdType)
        ensures
            match (*old(self), *final(self)) {
                (ConstantValue::Bool(b, x), ConstantValue::Bool(c, y)) => b == c && *r == x && y == *final(r),
                (ConstantValue::Int(i, x), ConstantValue::Int(j, y)) => i == j && *r == x && y == *final(r),
                _ => false,
            },
    {
        match self {
            ConstantValue::Bool(_, x) => x,
            ConstantValue::Int(_, x) => x,
        }
    }
}

impl OrderedExpression {
    /// The ordering data of the node.
    pub fn ord(&self) -> (r: &OrdType)
        ensures
            r@ == self@.ord,
    {
        match self {
            OrderedExpression::StdLib(f) => f.ord(),
            OrderedExpression::Constant(ConstantValue::Bool(_, x)) => x,
            OrderedExpression::Constant(ConstantValue::Int(_, x)) => x,
            OrderedExpression::Op(o) => o.ord(),
            OrderedExpression::Final(x) => x,
        }
    }

    /// The same node with other ordering data.
    pub fn with_ord(&self, o: OrdType) -> (r: OrderedExpression)
        ensures
            r@ == (NodeView { shape: self@.shape, ord: o@ }),
    {
        match self {
            OrderedExpression::StdLib(f) => OrderedExpression::StdLib(StdLibraryFunc::build(f.kind(), o)),
            OrderedExpression::Constant(ConstantValue::Bool(b, _)) => OrderedExpression::Constant(ConstantValue::Bool(*b, o)),
            OrderedExpression::Constant(ConstantValue::Int(i, _)) => OrderedExpression::Constant(ConstantValue::Int(*i, o)),
            OrderedExpression::Op(x) => OrderedExpression::Op(Op::build(x.kind(), o)),
            OrderedExpression::Final(_) => OrderedExpression::Final(o),
        }
    }

    /// The ordering data of the node, to be changed in place.
    pub fn ord_mut(&mut self) -> (r: &mut OrdType)
        ensures
            r@ == old(self)@.ord,
            final(self)@ == (NodeView { shape: old(self)@.shape, ord: final(r)@ }),
    {
        match self {
            OrderedExpression::StdLib(f) => f.ord_mut(),
            OrderedExpression::Constant(c) => c.ord_mut(),
            OrderedExpression::Op(o) => o.ord_mut(),
            OrderedExpression::Final(x) => x,
        }
    }

    /// A copy of the node.
    pub fn duplicate(&self) -> (r: OrderedExpression)
        ensures
            r@ == self@,
    {
        self.with_ord(self.ord().duplicate())
    }
}

impl MatchTrait for OrderedExpression {
    open spec fn spec_match(&self) -> Match {
        self@.ord.id
    }

    fn get_kind(&self) -> (r: TypeData) {
        self.ord().get_kind()
    }

    fn get_id(&self) -> (r: u64) {
        self.ord().get_id()
    }
}

impl OrdTrait for OrderedExpression {
    open spec fn ord_view(&self) -> OrdView {
        self@.ord
    }

    fn get_matcher(&self) -> (r: Match) {
        self.ord().get_matcher()
    }

    fn get_sources(&self) -> (r: &[Match]) {
        self.ord().get_sources()
    }

    fn has_sources(&self) -> (r: bool) {
        self.ord().has_sources()
    }

    fn get_sinks(&self) -> (r: &[Match]) {
        self.ord().get_sinks()
    }

    fn has_sinks(&self) -> (r: bool) {
        self.ord().has_sinks()
    }

    fn add_sink(&mut self, matcher: &Match)
        ensures
            final(self)@.shape == old(self)@.shape,
    {
        self.ord_mut().add_sink(matcher);
    }

    fn cas_source(&mut self, old_source: &Match, new_source: &Match)
        ensures
            final(self)@.shape == old(self)@.shape,
    {
        self.ord_mut().cas_source(old_source, new_source);
    }

    fn remove_sink(&mut self, matcher: &Match)
        ensures
            final(self)@.shape == old(self)@.shape,
    {
        self.ord_mut().remove_sink(matcher);
    }
}

} // verus!
