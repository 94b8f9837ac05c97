//! The global scope of a program: the names and types of its functions and
//! constants, gathered before any expression is lowered.
pub mod scope;
pub use self::scope::GlobalScope;
pub mod expression_collection;
pub use self::expression_collection::BlockExpression;
pub mod typedata;
pub use self::typedata::FullTypeData;
