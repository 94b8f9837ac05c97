//! Name resolution and type checking: the program's declarations are
//! gathered into a namespace, and each body is lowered into block
//! expressions that carry their types.
pub mod blockexpression;
pub use self::blockexpression::BlockExpression;
pub mod block;
pub use self::block::BasicBlock;
pub mod namespace;
pub use self::namespace::Namespace;
pub mod laws;
