//! Inlining: function calls are replaced by their bodies, environment
//! values are read, and constant operations are folded.
pub mod envir;
pub mod expr;
pub use self::expr::InlinedExpression;
pub mod coll;
pub use self::coll::InlinedCollection;
pub mod laws;
