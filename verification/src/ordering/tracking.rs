//! Read tracking: the inlined expressions with their hash, an ordering
//! number, and the expressions each one reads and is read by.
use std::collections::BTreeMap;
use vstd::prelude::*;

use crate::inliner::coll::{closed, keyed, InlinedView};
use crate::inliner::expr::{children, inlined_hash};
use crate::inliner::{InlinedCollection, InlinedExpression};
use crate::parser_output::Operation;

verus! {

broadcast use vstd::std_specs::btree::group_btree_axioms;

/// The hash of an expression: an opaque value tied to the inlined
/// expression it came from.
#[derive(Clone, Copy, Debug, PartialEq, Eq, Structural, PartialOrd, Ord, Hash)]
pub struct Hash {
    hash_value: u64,
}

impl View for Hash {
    type V = u64;

    closed spec fn view(&self) -> u64 {
        self.hash_value
    }
}

impl Hash {
    /// The hash of an inlined expression.
    pub fn of(arg: &InlinedExpression) -> (r: Hash)
        ensures
            r@ == inlined_hash(*arg),
    {
        Hash { hash_value: arg.get_hash() }
    }
}

/// What carries a hash.
pub trait HashOp {
    /// The hash carried.
    spec fn spec_hash(&self) -> u64;

    /// The hash carried.
    fn get_hash(&self) -> (r: u64)
        ensures
            r == self.spec_hash(),
    ;
}

/// Whether two carry the same hash.
pub fn equal_hash<A: HashOp, B: HashOp>(a: &A, b: &B) -> (r: bool)
    ensures
        r == (a.spec_hash() == b.spec_hash()),
{
    a.get_hash() == b.get_hash()
}

impl HashOp for Hash {
    open spec fn spec_hash(&self) -> u64 {
        self@
    }

    fn get_hash(&self) -> (r: u64) {
        self.hash_value
    }
}

/// The ordering number of an expression.
#[derive(Clone, Copy, Debug, PartialEq, Eq, Structural, PartialOrd, Ord, Hash)]
pub struct OpOrder {
    op_order: u64,
}

impl View for OpOrder {
    type V = u64;

    closed spec fn view(&self) -> u64 {
        self.op_order
    }
}

impl OpOrder {
    /// Ordering number zero.
    pub fn new() -> (r: OpOrder)
        ensures
            r@ == 0,
    {
        OpOrder { op_order: 0 }
    }
}

/// What carries an ordering number.
pub trait OrderingOp {
    /// The ordering number carried.
    spec fn spec_order(&self) -> u64;

    /// Sets the ordering number.
    fn set(&mut self, value: u64)
        ensures
            final(self).spec_order() == value,
    ;

    /// The ordering number.
    fn get(&self) -> (r: u64)
        ensures
            r == self.spec_order(),
    ;
}

/// Whether two have the same ordering number.
pub fn equal_ordering<A: OrderingOp, B: OrderingOp>(a: &A, b: &B) -> (r: bool)
    ensures
        r == (a.spec_order() == b.spec_order()),
{
    a.get() == b.get()
}

impl OrderingOp for OpOrder {
    open spec fn spec_order(&self) -> u64 {
        self@
    }

    fn set(&mut self, value: u64) {
        self.op_order = value;
    }

    fn get(&self) -> (r: u64) {
        self.op_order
    }
}

/// The value of read tracking: who reads this expression, and what it
/// reads.
pub struct ReadView {
    pub sinks: Seq<u64>,
    pub sources: Seq<u64>,
}

/// Recording a reader, unless it is recorded.
pub open spec fn with_reader(r: ReadView, x: u64) -> ReadView {
    if r.sinks.contains(x) {
        r
    } else {
        ReadView { sinks: r.sinks.push(x), ..r }
    }
}

/// Recording something read, unless it is recorded.
pub open spec fn with_read(r: ReadView, x: u64) -> ReadView {
    if r.sources.contains(x) {
        r
    } else {
        ReadView { sources: r.sources.push(x), ..r }
    }
}

/// No reader and nothing read.
pub open spec fn empty_read() -> ReadView {
    ReadView { sinks: Seq::empty(), sources: Seq::empty() }
}

/// Tracks which expressions read this one (its sinks) and which it reads
/// (its sources).
#[derive(Debug, PartialEq, Eq, Hash)]
pub struct ReadTracking {
    sinks: Vec<u64>,
    sources: Vec<u64>,
}

impl View for ReadTracking {
    type V = ReadView;

    closed spec fn view(&self) -> ReadView {
        ReadView { sinks: self.sinks@, sources: self.sources@ }
    }
}

/// Whether `x` is in `v`.
fn contains_u64(v: &Vec<u64>, x: u64) -> (r: bool)
    ensures
        r == v@.contains(x),
{
    for i in 0..v.len()
        invariant
            forall|j: int| 0 <= j < i ==> v@[j] != x,
    {
        if v[i] == x {
            return true;
        }
    }
    false
}

impl ReadTracking {
    /// No reader and nothing read.
    pub fn new() -> (r: ReadTracking)
        ensures
            r@ == empty_read(),
    {
        ReadTracking { sinks: Vec::new(), sources: Vec::new() }
    }
}

/// Lets an expression know how many expressions consume its output.
pub trait ReadTrackingOp {
    /// The read tracking carried.
    spec fn spec_read(&self) -> ReadView;

    /// A copy of the read tracking.
    fn get_copy(&self) -> (r: ReadTracking)
        ensures
            r@ == self.spec_read(),
    ;

    /// Records a sink: an expression which reads this one.
    fn add_sink(&mut self, sink: u64)
        ensures
            final(self).spec_read() == with_reader(old(self).spec_read(), sink),
    ;

    /// Records a source: an expression which this one reads.
    fn add_source(&mut self, source: u64)
        ensures
            final(self).spec_read() == with_read(old(self).spec_read(), source),
    ;

    /// The number of expressions which read this one.
    fn get_num_sinks(&self) -> (r: usize)
        ensures
            r == self.spec_read().sinks.len(),
    ;

    /// The number of expressions which this one reads.
    fn get_num_sources(&self) -> (r: usize)
        ensures
            r == self.spec_read().sources.len(),
    ;
}

impl ReadTrackingOp for ReadTracking {
    open spec fn spec_read(&self) -> ReadView {
        self@
    }

    fn get_copy(&self) -> (r: ReadTracking) {
        ReadTracking { sinks: self.sinks.clone(), sources: self.sources.clone() }
    }

    fn add_sink(&mut self, sink: u64) {
        if !contains_u64(&self.sinks, sink) {
            self.sinks.push(sink);
        }
    }

    fn add_source(&mut self, source: u64) {
        if !contains_u64(&self.sources, source) {
            self.sources.push(source);
        }
    }

    fn get_num_sinks(&self) -> (r: usize) {
        self.sinks.len()
    }

    fn get_num_sources(&self) -> (r: usize) {
        self.sources.len()
    }
}

/// What a tracked node computes: a call of the standard library with the
/// hashes of its arguments, an operation on two hashes, or a constant.
pub enum NodeContent {
    Call(Seq<char>, Seq<u64>),
    Apply(u64, Operation, u64),
    Bool(bool),
    Int(i32),
}

/// The value of a tracked node: what it computes, its hash, its ordering
/// number, and its read tracking.
pub struct TrackedView {
    pub content: NodeContent,
    pub hash: u64,
    pub order: u64,
    pub read: ReadView,
}

/// A constant integer.
#[derive(Debug, PartialEq, Eq, Hash)]
pub struct LiteralInt {
    pub lit: i32,
    ordering: OpOrder,
    hash: Hash,
    read: ReadTracking,
}

/// A constant boolean.
#[derive(Debug, PartialEq, Eq, Hash)]
pub struct LiteralBool {
    pub lit: bool,
    ordering: OpOrder,
    hash: Hash,
    read: ReadTracking,
}

/// An operation on two expressions.
#[derive(Debug, PartialEq, Eq, Hash)]
pub struct Op {
    pub left: u64,
    pub op: Operation,
    pub right: u64,
    order: OpOrder,
    hash: Hash,
    read: ReadTracking,
}

/// A call of the standard library.
#[derive(Debug, PartialEq, Eq, Hash)]
pub struct StdLibFunc {
    pub name: String,
    pub arg: Vec<u64>,
    order: OpOrder,
    hash: Hash,
    read: ReadTracking,
}

/// The name and arguments of the call an inlined expression makes, for the
/// nodes of the standard library.
pub open spec fn stdlib_call(e: InlinedExpression) -> Option<(Seq<char>, Seq<u64>)> {
    match e {
        InlinedExpression::D6(a) => Some(("roll_d6"@, seq![a])),
        InlinedExpression::D3(a) => Some(("roll_d3"@, seq![a])),
        InlinedExpression::Filter(a, b) => Some(("filter"@, seq![a, b])),
        InlinedExpression::Count(a) => Some(("count"@, seq![a])),
        InlinedExpression::Len(a) => Some(("len"@, seq![a])),
        InlinedExpression::Join(a, b) => Some(("join"@, seq![a, b])),
        InlinedExpression::Sum(a) => Some(("sum"@, seq![a])),
        InlinedExpression::Max(a) => Some(("max"@, seq![a])),
        InlinedExpression::Min(a) => Some(("min"@, seq![a])),
        _ => None,
    }
}

/// What the node of an inlined expression computes: the same constant,
/// operation or call, over the same hashes.
pub open spec fn content_of(e: InlinedExpression) -> NodeContent {
    match e {
        InlinedExpression::ConstantInt(i) => NodeContent::Int(i),
        InlinedExpression::ConstantBool(b) => NodeContent::Bool(b),
        InlinedExpression::Operation(l, o, r, _) => NodeContent::Apply(l, o, r),
        _ => NodeContent::Call(stdlib_call(e)->Some_0.0, stdlib_call(e)->Some_0.1),
    }
}

/// A fresh node: what the expression computes, its hash, ordering number
/// zero, and no tracking.
pub open spec fn fresh(e: InlinedExpression) -> TrackedView {
    TrackedView { content: content_of(e), hash: inlined_hash(e), order: 0, read: empty_read() }
}

/// The pairs of reader and read for the arguments `args` of the node with
/// hash `h`.
pub open spec fn reads_of(h: u64, args: Seq<u64>) -> Seq<(u64, u64)> {
    args.map_values(|a: u64| (h, a))
}

/// Recording each argument as read, in order.
pub open spec fn read_all(r: ReadView, args: Seq<u64>) -> ReadView
    decreases args.len(),
{
    if args.len() == 0 {
        r
    } else {
        with_read(read_all(r, args.drop_last()), args.last())
    }
}

impl LiteralInt {
    /// The integer, hash, ordering number and read tracking.
    pub closed spec fn tracking_view(&self) -> TrackedView {
        TrackedView { content: NodeContent::Int(self.lit), hash: self.hash@, order: self.ordering@, read: self.read@ }
    }
}

impl HashOp for LiteralInt {
    open spec fn spec_hash(&self) -> u64 {
        self.tracking_view().hash
    }

    fn get_hash(&self) -> (r: u64) {
        self.hash.get_hash()
    }
}

impl OrderingOp for LiteralInt {
    open spec fn spec_order(&self) -> u64 {
        self.tracking_view().order
    }

    fn set(&mut self, value: u64)
        ensures
            final(self).tracking_view() == (TrackedView { order: value, ..old(self).tracking_view() }),
            final(self).spec_lit() == old(self).spec_lit(),
    {
        self.ordering.set(value);
    }

    fn get(&self) -> (r: u64) {
        self.ordering.get()
    }
}

impl ReadTrackingOp for LiteralInt {
    open spec fn spec_read(&self) -> ReadView {
        self.tracking_view().read
    }

    fn get_copy(&self) -> (r: ReadTracking) {
        self.read.get_copy()
    }

    fn add_sink(&mut self, sink: u64)
        ensures
            final(self).tracking_view() == (TrackedView { read: with_reader(old(self).tracking_view().read, sink), ..old(self).tracking_view() }),
            final(self).spec_lit() == old(self).spec_lit(),
    {
        self.read.add_sink(sink);
    }

    fn add_source(&mut self, source: u64)
        ensures
            final(self).tracking_view() == (TrackedView { read: with_read(old(self).tracking_view().read, source), ..old(self).tracking_view() }),
            final(self).spec_lit() == old(self).spec_lit(),
    {
        self.read.add_source(source);
    }

    fn get_num_sinks(&self) -> (r: usize) {
        self.read.get_num_sinks()
    }

    fn get_num_sources(&self) -> (r: usize) {
        self.read.get_num_sources()
    }
}


impl LiteralBool {
    /// The boolean, hash, ordering number and read tracking.
    pub closed spec fn tracking_view(&self) -> TrackedView {
        TrackedView { content: NodeContent::Bool(self.lit), hash: self.hash@, order: self.ordering@, read: self.read@ }
    }
}

impl HashOp for LiteralBool {
    open spec fn spec_hash(&self) -> u64 {
        self.tracking_view().hash
    }

    fn get_hash(&self) -> (r: u64) {
        self.hash.get_hash()
    }
}

impl OrderingOp for LiteralBool {
    open spec fn spec_order(&self) -> u64 {
        self.tracking_view().order
    }

    fn set(&mut self, value: u64)
        ensures
            final(self).tracking_view() == (TrackedView { order: value, ..old(self).tracking_view() }),
            final(self).spec_lit() == old(self).spec_lit(),
    {
        self.ordering.set(value);
    }

    fn get(&self) -> (r: u64) {
        self.ordering.get()
    }
}

impl ReadTrackingOp for LiteralBool {
    open spec fn spec_read(&self) -> ReadView {
        self.tracking_view().read
    }

    fn get_copy(&self) -> (r: ReadTracking) {
        self.read.get_copy()
    }

    fn add_sink(&mut self, sink: u64)
        ensures
            final(self).tracking_view() == (TrackedView { read: with_reader(old(self).tracking_view().read, sink), ..old(self).tracking_view() }),
            final(self).spec_lit() == old(self).spec_lit(),
    {
        self.read.add_sink(sink);
    }

    fn add_source(&mut self, source: u64)
        ensures
            final(self).tracking_view() == (TrackedView { read: with_read(old(self).tracking_view().read, source), ..old(self).tracking_view() }),
            final(self).spec_lit() == old(self).spec_lit(),
    {
        self.read.add_source(source);
    }

    fn get_num_sinks(&self) -> (r: usize) {
        self.read.get_num_sinks()
    }

    fn get_num_sources(&self) -> (r: usize) {
        self.read.get_num_sources()
    }
}


impl Op {
    /// The hash, ordering number and read tracking.
    pub closed spec fn tracking_view(&self) -> TrackedView {
        TrackedView {
            content: NodeContent::Apply(self.left, self.op, self.right),
            hash: self.hash@,
            order: self.order@,
            read: self.read@,
        }
    }
}

impl HashOp for Op {
    open spec fn spec_hash(&self) -> u64 {
        self.tracking_view().hash
    }

    fn get_hash(&self) -> (r: u64) {
        self.hash.get_hash()
    }
}

impl OrderingOp for Op {
    open spec fn spec_order(&self) -> u64 {
        self.tracking_view().order
    }

    fn set(&mut self, value: u64)
        ensures
            final(self).tracking_view() == (TrackedView { order: value, ..old(self).tracking_view() }),
            final(self).spec_left() == old(self).spec_left() && final(self).spec_op() == old(self).spec_op()
                && final(self).spec_right() == old(self).spec_right(),
    {
        self.order.set(value);
    }

    fn get(&self) -> (r: u64) {
        self.order.get()
    }
}

impl ReadTrackingOp for Op {
    open spec fn spec_read(&self) -> ReadView {
        self.tracking_view().read
    }

    fn get_copy(&self) -> (r: ReadTracking) {
        self.read.get_copy()
    }

    fn add_sink(&mut self, sink: u64)
        ensures
            final(self).tracking_view() == (TrackedView { read: with_reader(old(self).tracking_view().read, sink), ..old(self).tracking_view() }),
            final(self).spec_left() == old(self).spec_left() && final(self).spec_op() == old(self).spec_op()
                && final(self).spec_right() == old(self).spec_right(),
    {
        self.read.add_sink(sink);
    }

    fn add_source(&mut self, source: u64)
        ensures
            final(self).tracking_view() == (TrackedView { read: with_read(old(self).tracking_view().read, source), ..old(self).tracking_view() }),
            final(self).spec_left() == old(self).spec_left() && final(self).spec_op() == old(self).spec_op()
                && final(self).spec_right() == old(self).spec_right(),
    {
        self.read.add_source(source);
    }

    fn get_num_sinks(&self) -> (r: usize) {
        self.read.get_num_sinks()
    }

    fn get_num_sources(&self) -> (r: usize) {
        self.read.get_num_sources()
    }
}


impl StdLibFunc {
    /// The hash, ordering number and read tracking.
    pub closed spec fn tracking_view(&self) -> TrackedView {
        TrackedView { content: NodeContent::Call(self.name@, self.arg@), hash: self.hash@, order: self.order@, read: self.read@ }
    }
}

impl HashOp for StdLibFunc {
    open spec fn spec_hash(&self) -> u64 {
        self.tracking_view().hash
    }

    fn get_hash(&self) -> (r: u64) {
        self.hash.get_hash()
    }
}

impl OrderingOp for StdLibFunc {
    open spec fn spec_order(&self) -> u64 {
        self.tracking_view().order
    }

    fn set(&mut self, value: u64)
        ensures
            final(self).tracking_view() == (TrackedView { order: value, ..old(self).tracking_view() }),
            final(self).spec_args() == old(self).spec_args() && final(self).spec_name() == old(self).spec_name(),
    {
        self.order.set(value);
    }

    fn get(&self) -> (r: u64) {
        self.order.get()
    }
}

impl ReadTrackingOp for StdLibFunc {
    open spec fn spec_read(&self) -> ReadView {
        self.tracking_view().read
    }

    fn get_copy(&self) -> (r: ReadTracking) {
        self.read.get_copy()
    }

    fn add_sink(&mut self, sink: u64)
        ensures
            final(self).tracking_view() == (TrackedView { read: with_reader(old(self).tracking_view().read, sink), ..old(self).tracking_view() }),
            final(self).spec_args() == old(self).spec_args() && final(self).spec_name() == old(self).spec_name(),
    {
        self.read.add_sink(sink);
    }

    fn add_source(&mut self, source: u64)
        ensures
            final(self).tracking_view() == (TrackedView { read: with_read(old(self).tracking_view().read, source), ..old(self).tracking_view() }),
            final(self).spec_args() == old(self).spec_args() && final(self).spec_name() == old(self).spec_name(),
    {
        self.read.add_source(source);
    }

    fn get_num_sinks(&self) -> (r: usize) {
        self.read.get_num_sinks()
    }

    fn get_num_sources(&self) -> (r: usize) {
        self.read.get_num_sources()
    }
}


impl LiteralInt {
    /// The integer.
    pub closed spec fn spec_lit(&self) -> i32 {
        self.lit
    }

    /// The constant an inlined integer constant becomes; `None` for any
    /// other expression.
    pub fn new(arg: &InlinedExpression) -> (r: Option<LiteralInt>)
        ensures
            match *arg {
                InlinedExpression::ConstantInt(i) => r matches Some(x) && x.spec_lit() == i && x.spec_hash() == inlined_hash(
                    *arg,
                ) && x.spec_order() == 0 && x.spec_read() == empty_read(),
                _ => r is None,
            },
    {
        match arg {
            InlinedExpression::ConstantInt(i) => Some(
                LiteralInt { lit: *i, hash: Hash::of(arg), ordering: OpOrder::new(), read: ReadTracking::new() },
            ),
            _ => None,
        }
    }
}

impl LiteralBool {
    /// The boolean.
    pub closed spec fn spec_lit(&self) -> bool {
        self.lit
    }

    /// The constant an inlined boolean constant becomes; `None` for any
    /// other expression.
    pub fn new(arg: &InlinedExpression) -> (r: Option<LiteralBool>)
        ensures
            match *arg {
                InlinedExpression::ConstantBool(b) => r matches Some(x) && x.spec_lit() == b && x.spec_hash() == inlined_hash(
                    *arg,
                ) && x.spec_order() == 0 && x.spec_read() == empty_read(),
                _ => r is None,
            },
    {
        match arg {
            InlinedExpression::ConstantBool(b) => Some(
                LiteralBool { lit: *b, ordering: OpOrder::new(), read: ReadTracking::new(), hash: Hash::of(arg) },
            ),
            _ => None,
        }
    }
}

impl Op {
    /// The hash of the left operand.
    pub closed spec fn spec_left(&self) -> u64 {
        self.left
    }

    /// The operation.
    pub closed spec fn spec_op(&self) -> Operation {
        self.op
    }

    /// The hash of the right operand.
    pub closed spec fn spec_right(&self) -> u64 {
        self.right
    }

    /// The operation an inlined operation becomes; `None` for any other
    /// expression.
    pub fn new(arg: &InlinedExpression) -> (r: Option<Op>)
        ensures
            match *arg {
                InlinedExpression::Operation(l, o, rt, _) => r matches Some(x) && x.spec_left() == l && x.spec_op() == o && x.spec_right()
                    == rt && x.spec_hash() == inlined_hash(*arg) && x.spec_order() == 0 && x.spec_read() == empty_read(),
                _ => r is None,
            },
    {
        match arg {
            InlinedExpression::Operation(left, op, right, _) => Some(
                Op {
                    left: *left,
                    op: *op,
                    right: *right,
                    order: OpOrder::new(),
                    hash: Hash::of(arg),
                    read: ReadTracking::new(),
                },
            ),
            _ => None,
        }
    }

    /// The pairs (own hash, operand hash), left operand first.
    pub fn get_source_sink(&self) -> (r: Vec<(u64, u64)>)
        ensures
            r@ == reads_of(self.spec_hash(), seq![self.spec_left(), self.spec_right()]),
    {
        let h = self.get_hash();
        let r = vec![(h, self.left), (h, self.right)];
        assert(r@ =~= reads_of(self.spec_hash(), seq![self.left, self.right]));
        r
    }
}

impl StdLibFunc {
    /// The name of the function called.
    pub closed spec fn spec_name(&self) -> Seq<char> {
        self.name@
    }

    /// The hashes of the arguments.
    pub closed spec fn spec_args(&self) -> Seq<u64> {
        self.arg@
    }

    /// The call an inlined call of the standard library becomes; `None`
    /// for any other expression.
    pub fn new(arg: &InlinedExpression) -> (r: Option<StdLibFunc>)
        ensures
            match stdlib_call(*arg) {
                Some((name, args)) => r matches Some(x) && x.spec_name() == name && x.spec_args() == args && x.spec_hash()
                    == inlined_hash(*arg) && x.spec_order() == 0 && x.spec_read() == empty_read(),
                None => r is None,
            },
    {
        let (name, args): (&str, Vec<u64>) = match arg {
            InlinedExpression::D6(a) => ("roll_d6", vec![*a]),
            InlinedExpression::D3(a) => ("roll_d3", vec![*a]),
            InlinedExpression::Filter(a, b) => ("filter", vec![*a, *b]),
            InlinedExpression::Count(a) => ("count", vec![*a]),
            InlinedExpression::Len(a) => ("len", vec![*a]),
            InlinedExpression::Join(a, b) => ("join", vec![*a, *b]),
            InlinedExpression::Sum(a) => ("sum", vec![*a]),
            InlinedExpression::Max(a) => ("max", vec![*a]),
            InlinedExpression::Min(a) => ("min", vec![*a]),
            _ => return None,
        };
        assert(args@ =~= stdlib_call(*arg)->Some_0.1);
        Some(
            StdLibFunc {
                name: String::from_str(name),
                hash: Hash::of(arg),
                arg: args,
                order: OpOrder::new(),
                read: ReadTracking::new(),
            },
        )
    }

    /// The pairs (own hash, argument hash), in argument order.
    pub fn get_source_sink(&self) -> (r: Vec<(u64, u64)>)
        ensures
            r@ == reads_of(self.spec_hash(), self.spec_args()),
    {
        let h = self.get_hash();
        let mut out: Vec<(u64, u64)> = Vec::new();
        for i in 0..self.arg.len()
            invariant
                h == self.spec_hash(),
                out@ == reads_of(h, self.arg@.take(i as int)),
        {
            out.push((h, self.arg[i]));
            assert(out@ =~= reads_of(h, self.arg@.take(i + 1)));
        }
        assert(self.arg@.take(self.arg@.len() as int) =~= self.arg@);
        out
    }
}

/// Expressions with their read tracking.
#[derive(Debug, PartialEq, Eq, Hash)]
pub enum OrderedExpression {
    StdLibFunc(StdLibFunc),
    Operation(Op),
    ConstantBool(LiteralBool),
    ConstantInt(LiteralInt),
}

impl OrderedExpression {
    /// The hash, ordering number and read tracking.
    pub open spec fn tracking_view(&self) -> TrackedView {
        match self {
            OrderedExpression::StdLibFunc(x) => x.tracking_view(),
            OrderedExpression::Operation(x) => x.tracking_view(),
            OrderedExpression::ConstantBool(x) => x.tracking_view(),
            OrderedExpression::ConstantInt(x) => x.tracking_view(),
        }
    }

    /// The hashes this expression reads, in argument order.
    pub open spec fn spec_args(&self) -> Seq<u64> {
        match self {
            OrderedExpression::StdLibFunc(x) => x.spec_args(),
            OrderedExpression::Operation(x) => seq![x.spec_left(), x.spec_right()],
            _ => Seq::empty(),
        }
    }

    /// The node an inlined expression becomes: fresh, computing the same
    /// constant, operation or call over the same hashes.
    pub fn new(arg: &InlinedExpression) -> (r: OrderedExpression)
        ensures
            r.tracking_view() == fresh(*arg),
            r.spec_args() == children(*arg),
    {
        match Op::new(arg) {
            Option::Some(x) => return OrderedExpression::Operation(x),
            Option::None => {},
        }
        match LiteralInt::new(arg) {
            Option::Some(x) => return OrderedExpression::ConstantInt(x),
            Option::None => {},
        }
        match LiteralBool::new(arg) {
            Option::Some(x) => return OrderedExpression::ConstantBool(x),
            Option::None => {},
        }
        match StdLibFunc::new(arg) {
            Option::Some(x) => OrderedExpression::StdLibFunc(x),
            Option::None => {
                proof {
                    assert(false);
                }
                OrderedExpression::ConstantBool(LiteralBool::new(&InlinedExpression::ConstantBool(true)).unwrap())
            },
        }
    }

    /// The pairs (own hash, argument hash) of the arguments read, each of
    /// which is recorded as a source.
    pub fn get_source_sink(&mut self) -> (r: Vec<(u64, u64)>)
        ensures
            r@ == reads_of(old(self).tracking_view().hash, old(self).spec_args()),
            final(self).tracking_view() == (TrackedView {
                read: read_all(old(self).tracking_view().read, old(self).spec_args()),
                ..old(self).tracking_view()
            }),
            final(self).spec_args() == old(self).spec_args(),
    {
        match self {
            OrderedExpression::StdLibFunc(func) => {
                let v = func.get_source_sink();
                let ghost args = func.spec_args();
                let ghost t0 = func.tracking_view();
                assert(args.take(0) =~= Seq::<u64>::empty());
                for i in 0..v.len()
                    invariant
                        v@ == reads_of(t0.hash, args),
                        func.spec_args() == args,
                        func.tracking_view() == (TrackedView { read: read_all(t0.read, args.take(i as int)), ..t0 }),
                {
                    func.add_source(v[i].1);
                    assert(args.take(i + 1).drop_last() =~= args.take(i as int));
                }
                assert(args.take(args.len() as int) =~= args);
                v
            },
            OrderedExpression::Operation(op) => {
                let v = op.get_source_sink();
                let ghost args = seq![op.spec_left(), op.spec_right()];
                let ghost t0 = op.tracking_view();
                assert(args.take(0) =~= Seq::<u64>::empty());
                for i in 0..v.len()
                    invariant
                        v@ == reads_of(t0.hash, args),
                        op.spec_left() == args[0],
                        op.spec_right() == args[1],
                        args.len() == 2,
                        op.tracking_view() == (TrackedView { read: read_all(t0.read, args.take(i as int)), ..t0 }),
                {
                    op.add_source(v[i].1);
                    assert(args.take(i + 1).drop_last() =~= args.take(i as int));
                }
                assert(args.take(2) =~= args);
                v
            },
            OrderedExpression::ConstantBool(_) => Vec::new(),
            OrderedExpression::ConstantInt(_) => Vec::new(),
        }
    }
}

impl HashOp for OrderedExpression {
    open spec fn spec_hash(&self) -> u64 {
        self.tracking_view().hash
    }

    fn get_hash(&self) -> (r: u64) {
        match self {
            OrderedExpression::StdLibFunc(x) => x.get_hash(),
            OrderedExpression::Operation(x) => x.get_hash(),
            OrderedExpression::ConstantBool(x) => x.get_hash(),
            OrderedExpression::ConstantInt(x) => x.get_hash(),
        }
    }
}

impl OrderingOp for OrderedExpression {
    open spec fn spec_order(&self) -> u64 {
        self.tracking_view().order
    }

    fn set(&mut self, value: u64)
        ensures
            final(self).tracking_view() == (TrackedView { order: value, ..old(self).tracking_view() }),
            final(self).spec_args() == old(self).spec_args(),
    {
        match self {
            OrderedExpression::StdLibFunc(x) => x.set(value),
            OrderedExpression::Operation(x) => x.set(value),
            OrderedExpression::ConstantBool(x) => x.set(value),
            OrderedExpression::ConstantInt(x) => x.set(value),
        }
    }

    fn get(&self) -> (r: u64) {
        match self {
            OrderedExpression::StdLibFunc(x) => x.get(),
            OrderedExpression::Operation(x) => x.get(),
            OrderedExpression::ConstantBool(x) => x.get(),
            OrderedExpression::ConstantInt(x) => x.get(),
        }
    }
}

impl ReadTrackingOp for OrderedExpression {
    open spec fn spec_read(&self) -> ReadView {
        self.tracking_view().read
    }

    fn get_copy(&self) -> (r: ReadTracking) {
        match self {
            OrderedExpression::StdLibFunc(x) => x.get_copy(),
            OrderedExpression::Operation(x) => x.get_copy(),
            OrderedExpression::ConstantBool(x) => x.get_copy(),
            OrderedExpression::ConstantInt(x) => x.get_copy(),
        }
    }

    fn add_sink(&mut self, sink: u64)
        ensures
            final(self).tracking_view() == (TrackedView {
                read: with_reader(old(self).tracking_view().read, sink),
                ..old(self).tracking_view()
            }),
            final(self).spec_args() == old(self).spec_args(),
    {
        match self {
            OrderedExpression::StdLibFunc(x) => x.add_sink(sink),
            OrderedExpression::Operation(x) => x.add_sink(sink),
            OrderedExpression::ConstantBool(x) => x.add_sink(sink),
            OrderedExpression::ConstantInt(x) => x.add_sink(sink),
        }
    }

    fn add_source(&mut self, source: u64)
        ensures
            final(self).tracking_view() == (TrackedView {
                read: with_read(old(self).tracking_view().read, source),
                ..old(self).tracking_view()
            }),
            final(self).spec_args() == old(self).spec_args(),
    {
        match self {
            OrderedExpression::StdLibFunc(x) => x.add_source(source),
            OrderedExpression::Operation(x) => x.add_source(source),
            OrderedExpression::ConstantBool(x) => x.add_source(source),
            OrderedExpression::ConstantInt(x) => x.add_source(source),
        }
    }

    fn get_num_sinks(&self) -> (r: usize) {
        match self {
            OrderedExpression::StdLibFunc(x) => x.get_num_sinks(),
            OrderedExpression::Operation(x) => x.get_num_sinks(),
            OrderedExpression::ConstantBool(x) => x.get_num_sinks(),
            OrderedExpression::ConstantInt(x) => x.get_num_sinks(),
        }
    }

    fn get_num_sources(&self) -> (r: usize) {
        match self {
            OrderedExpression::StdLibFunc(x) => x.get_num_sources(),
            OrderedExpression::Operation(x) => x.get_num_sources(),
            OrderedExpression::ConstantBool(x) => x.get_num_sources(),
            OrderedExpression::ConstantInt(x) => x.get_num_sources(),
        }
    }
}

/// The identifiers of a finite set, in increasing order.
pub open spec fn sorted_set(s: Set<u64>) -> Seq<u64> {
    choose|q: Seq<u64>| super::holes::increasing(q) && q.to_set() == s
}

/// The pairs of reader and read of the expressions with hashes `ks`, in
/// that order.
pub open spec fn key_pairs(exprs: Map<u64, InlinedExpression>, ks: Seq<u64>) -> Seq<(u64, u64)>
    decreases ks.len(),
{
    if ks.len() == 0 {
        Seq::empty()
    } else {
        key_pairs(exprs, ks.drop_last()) + reads_of(inlined_hash(exprs[ks.last()]), children(exprs[ks.last()]))
    }
}

/// Each read expression records its reader, pair by pair.
pub open spec fn record_readers(m: Map<u64, TrackedView>, pairs: Seq<(u64, u64)>) -> Map<u64, TrackedView>
    decreases pairs.len(),
{
    if pairs.len() == 0 {
        m
    } else {
        let m1 = record_readers(m, pairs.drop_last());
        let (r, x) = pairs.last();
        if m1.contains_key(x) {
            m1.insert(x, TrackedView { read: with_reader(m1[x].read, r), ..m1[x] })
        } else {
            m1
        }
    }
}

/// The nodes of an inlined table before readers are recorded: each fresh,
/// with its arguments recorded as read.
pub open spec fn sourced(exprs: Map<u64, InlinedExpression>) -> Map<u64, TrackedView> {
    Map::new(
        |k: u64| exprs.contains_key(k),
        |k: u64| TrackedView { read: read_all(empty_read(), children(exprs[k])), ..fresh(exprs[k]) },
    )
}

/// The tracked nodes of an inlined table: every expression reads its
/// arguments, and every expression read records its readers, in increasing
/// order of the readers' keys.
pub open spec fn spec_tracking(exprs: Map<u64, InlinedExpression>) -> Map<u64, TrackedView> {
    record_readers(sourced(exprs), key_pairs(exprs, sorted_set(exprs.dom())))
}

/// The value of a tracking collection.
pub struct TrackingView {
    pub nodes: Map<u64, TrackedView>,
    pub ret: u64,
}

/// The values of a table of tracked expressions.
pub open spec fn view_tracked(m: Map<u64, OrderedExpression>) -> Map<u64, TrackedView> {
    m.map_values(|e: OrderedExpression| e.tracking_view())
}

/// Assigns sources and sinks to the expressions of an inlined collection.
pub struct OrderingCollection {
    data: BTreeMap<u64, OrderedExpression>,
    ret: u64,
}

impl View for OrderingCollection {
    type V = TrackingView;

    closed spec fn view(&self) -> TrackingView {
        TrackingView { nodes: view_tracked(self.data@), ret: self.ret }
    }
}

impl OrderingCollection {
    /// The nodes hold the expressions of `exprs`, with their arguments.
    closed spec fn holds(&self, exprs: Map<u64, InlinedExpression>) -> bool {
        &&& forall|k: u64| self.data@.contains_key(k) <==> exprs.contains_key(k)
        &&& forall|k: u64|
            #[trigger] self.data@.contains_key(k) ==> self.data@[k].spec_args() == children(exprs[k])
    }

    /// Builds the tracked nodes of an inlined collection with a result.
    pub fn new(arg: &InlinedCollection) -> (r: OrderingCollection)
        requires
            arg@.ret is Some,
        ensures
            r@ == (TrackingView { nodes: spec_tracking(arg@.exprs), ret: arg@.ret->Some_0 }),
    {
        let mut item = Self::init(arg);
        item.update_reader_coll(Ghost(arg@.exprs));
        item
    }

    /// A fresh node for every expression of the collection.
    fn init(arg: &InlinedCollection) -> (r: OrderingCollection)
        requires
            arg@.ret is Some,
        ensures
            r.holds(arg@.exprs),
            r.ret == arg@.ret->Some_0,
            forall|k: u64| #[trigger] r.data@.contains_key(k) ==> r.data@[k].tracking_view() == fresh(arg@.exprs[k]),
    {
        let ghost exprs = arg@.exprs;
        let keys = arg.keys();
        let n = keys.len();
        let mut data: BTreeMap<u64, OrderedExpression> = BTreeMap::new();
        for i in 0..n
            invariant
                n == keys@.len(),
                keys@.to_set() == exprs.dom(),
                exprs == arg@.exprs,
                forall|k: u64| data@.contains_key(k) <==> keys@.take(i as int).contains(k),
                forall|k: u64|
                    #[trigger] data@.contains_key(k) ==> data@[k].tracking_view() == fresh(exprs[k])
                        && data@[k].spec_args() == children(exprs[k]),
        {
            let k = keys[i];
            assert(keys@.to_set().contains(k));
            let e = match arg.get_expr(&k) {
                Option::Some(e) => e,
                Option::None => {
                    proof {
                        assert(false);
                    }
                    return OrderingCollection { data, ret: 0 };
                },
            };
            data.insert(k, OrderedExpression::new(e));
            assert forall|x: u64| data@.contains_key(x) <==> keys@.take(i + 1).contains(x) by {
                if keys@.take(i + 1).contains(x) {
                    let j = choose|j: int| 0 <= j < i + 1 && #[trigger] keys@.take(i + 1)[j] == x;
                    if j < i {
                        assert(keys@.take(i as int)[j] == x);
                    }
                }
                if keys@.take(i as int).contains(x) {
                    let j = choose|j: int| 0 <= j < i && #[trigger] keys@.take(i as int)[j] == x;
                    assert(keys@.take(i + 1)[j] == x);
                }
                if x == k {
                    assert(keys@.take(i + 1)[i as int] == k);
                }
            }
        }
        assert(keys@.take(n as int) =~= keys@);
        let ret = match arg.get_return() {
            Option::Some(r) => r,
            Option::None => 0,
        };
        OrderingCollection { data, ret }
    }

    /// Every node records the expressions it reads; the result lists the
    /// (reader, read) pairs in increasing order of the readers' keys.
    fn get_ordering(&mut self, Ghost(exprs): Ghost<Map<u64, InlinedExpression>>) -> (r: Vec<(u64, u64)>)
        requires
            old(self).holds(exprs),
            forall|k: u64| #[trigger] old(self).data@.contains_key(k) ==> old(self).data@[k].tracking_view() == fresh(exprs[k]),
        ensures
            final(self).holds(exprs),
            final(self).ret == old(self).ret,
            view_tracked(final(self).data@) == sourced(exprs),
            r@ == key_pairs(exprs, sorted_set(exprs.dom())),
    {
        let keys = super::coll::sorted_keys(&self.data);
        proof {
            let q = sorted_set(exprs.dom());
            assert(keys@.to_set() =~= exprs.dom()) by {
                assert forall|k: u64| keys@.to_set().contains(k) <==> exprs.dom().contains(k) by {
                    if exprs.dom().contains(k) {
                        assert(self.data@.contains_key(k));
                    }
                }
            }
            assert(super::holes::increasing(keys@) && keys@.to_set() == exprs.dom());
            super::holes::lemma_increasing_unique(keys@, q);
        }
        let n = keys.len();
        let ghost ks = keys@;
        let mut pairs: Vec<(u64, u64)> = Vec::new();
        assert(ks.take(0) =~= Seq::<u64>::empty());
        for i in 0..n
            invariant
                n == ks.len(),
                ks == keys@,
                ks.to_set() == exprs.dom(),
                super::holes::increasing(ks),
                self.holds(exprs),
                self.ret == old(self).ret,
                forall|k: u64|
                    #[trigger] self.data@.contains_key(k) ==> self.data@[k].tracking_view() == if ks.take(i as int).contains(k) {
                        sourced(exprs)[k]
                    } else {
                        fresh(exprs[k])
                    },
                pairs@ == key_pairs(exprs, ks.take(i as int)),
        {
            let k = keys[i];
            assert(ks.to_set().contains(k));
            assert(ks.take(i + 1).drop_last() =~= ks.take(i as int));
            assert(ks.take(i + 1).last() == k);
            assert(!ks.take(i as int).contains(k)) by {
                if ks.take(i as int).contains(k) {
                    let j = choose|j: int| 0 <= j < i && #[trigger] ks.take(i as int)[j] == k;
                    assert(ks[j] < ks[i as int]);
                }
            }
            match self.data.remove(&k) {
                Option::Some(mut node) => {
                    let v = node.get_source_sink();
                    self.data.insert(k, node);
                    let mut j: usize = 0;
                    let ghost p0 = pairs@;
                    while j < v.len()
                        invariant
                            j <= v@.len(),
                            pairs@ == p0 + v@.take(j as int),
                        decreases v@.len() - j,
                    {
                        pairs.push(v[j]);
                        assert(pairs@ =~= p0 + v@.take(j + 1));
                        j = j + 1;
                    }
                    assert(v@.take(v@.len() as int) =~= v@);
                    assert forall|x: u64| #[trigger] self.data@.contains_key(x) implies self.data@[x].tracking_view() == if ks.take(i + 1).contains(x) {
                        sourced(exprs)[x]
                    } else {
                        fresh(exprs[x])
                    } by {
                        if x != k {
                            if ks.take(i + 1).contains(x) {
                                let jj = choose|jj: int| 0 <= jj < i + 1 && #[trigger] ks.take(i + 1)[jj] == x;
                                assert(jj != i);
                                assert(ks.take(i as int)[jj] == x);
                            }
                            if ks.take(i as int).contains(x) {
                                let jj = choose|jj: int| 0 <= jj < i && #[trigger] ks.take(i as int)[jj] == x;
                                assert(ks.take(i + 1)[jj] == x);
                            }
                        } else {
                            assert(ks.take(i + 1)[i as int] == k);
                        }
                    }
                },
                Option::None => {
                    proof {
                        assert(false);
                    }
                },
            }
        }
        assert(ks.take(n as int) =~= ks);
        let ghost m0 = view_tracked(self.data@);
        assert(m0 =~= sourced(exprs)) by {
            assert forall|k: u64| m0.contains_key(k) <==> sourced(exprs).contains_key(k) by {}
            assert forall|k: u64| #[trigger] m0.contains_key(k) implies m0[k] == sourced(exprs)[k] by {
                assert(ks.to_set().contains(k));
            }
        }
        pairs
    }

    /// Records, for every (reader, read) pair, the reader at the node read.
    fn update_reader_coll(&mut self, Ghost(exprs): Ghost<Map<u64, InlinedExpression>>)
        requires
            old(self).holds(exprs),
            forall|k: u64| #[trigger] old(self).data@.contains_key(k) ==> old(self).data@[k].tracking_view() == fresh(exprs[k]),
        ensures
            final(self)@ == (TrackingView { nodes: spec_tracking(exprs), ret: old(self).ret }),
    {
        let pairs = self.get_ordering(Ghost(exprs));
        let ghost m0 = view_tracked(self.data@);
        let np = pairs.len();
        let ghost ps = pairs@;
        assert(ps.take(0) =~= Seq::<(u64, u64)>::empty());
        for p in 0..np
            invariant
                np == ps.len(),
                ps == pairs@,
                self.ret == old(self).ret,
                view_tracked(self.data@) == record_readers(m0, ps.take(p as int)),
        {
            let (sink, source) = pairs[p];
            assert(ps.take(p + 1).drop_last() =~= ps.take(p as int));
            assert(ps.take(p + 1).last() == (sink, source));
            self.update_reader_sink(sink, source);
            assert(view_tracked(self.data@) =~= record_readers(m0, ps.take(p + 1)));
        }
        assert(ps.take(np as int) =~= ps);
    }

    /// Records `sink` as a reader of the node under `source`, where there is one.
    fn update_reader_sink(&mut self, sink: u64, source: u64)
        ensures
            final(self).ret == old(self).ret,
            view_tracked(final(self).data@) == if view_tracked(old(self).data@).contains_key(source) {
                view_tracked(old(self).data@).insert(source, TrackedView {
                    read: with_reader(view_tracked(old(self).data@)[source].read, sink),
                    ..view_tracked(old(self).data@)[source]
                })
            } else {
                view_tracked(old(self).data@)
            },
    {
        match self.data.remove(&source) {
            Option::Some(mut node) => {
                node.add_sink(sink);
                self.data.insert(source, node);
                assert(view_tracked(self.data@) =~= view_tracked(old(self).data@).insert(source, node.tracking_view()));
            },
            Option::None => {
                assert(view_tracked(self.data@) =~= view_tracked(old(self).data@));
            },
        }
    }

    /// The hash of the result.
    pub fn get_return(&self) -> (r: u64)
        ensures
            r == self@.ret,
    {
        self.ret
    }

    /// The node under a hash.
    pub fn get_expr(&self, arg: &u64) -> (r: &OrderedExpression)
        requires
            self@.nodes.contains_key(*arg),
        ensures
            r.tracking_view() == self@.nodes[*arg],
    {
        match self.data.get(arg) {
            Option::Some(e) => e,
            Option::None => {
                proof {
                    assert(false);
                }
                self.data.get(arg).unwrap()
            },
        }
    }
}

} // verus!
