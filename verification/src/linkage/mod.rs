//! Linkage: a hashed expression of the root block resolved into a tree,
//! with its variables replaced by the expressions that define them.
pub mod identifier;
pub use self::identifier::Identifier;
pub mod expr;
pub use self::expr::LinkageExpression;
pub mod collection;
pub use self::collection::linkaged;
