//! Ordering: the inlined expressions as a graph in which every expression
//! knows what it reads and what reads it, and rewrites of that graph.
pub mod matcher;
pub use self::matcher::{Match, MatchTrait};
pub mod ord;
pub use self::ord::{OrdTrait, OrdType};
pub mod expr;
pub use self::expr::{ConstantValue, Op, OrderedExpression, StdLibraryFunc};
pub mod coll;
pub use self::coll::OrderingCollection;
pub mod builder;
pub use self::coll::OrderedCollection;
pub mod graphs;
pub use self::graphs::{AddSink, Inserter, Modifications, ModifyGraph, Operation, RemoveSink, Remover, SwapSource};
pub use self::coll::Graph;
pub mod holes;
pub mod datum;
pub mod laws;
pub mod tracking;
pub mod tracking_laws;
pub mod typed_laws;
