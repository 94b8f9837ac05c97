//! Values that evaluation produces, and the stack of function frames it
//! walks.
pub mod elements;
pub use self::elements::DataElement;
pub mod stack;
pub use self::stack::Stack;
pub mod datum;
pub use self::datum::Datum;
