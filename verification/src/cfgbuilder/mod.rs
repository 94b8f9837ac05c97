//! Lowering of the namespace into hashed expressions: every name becomes an
//! identifier and every nested expression a hash into a table.
pub mod identifier;
pub use self::identifier::Identifier;
pub mod expression;
pub use self::expression::HashedExpression;
pub mod collection;
pub use self::collection::ExpressionCollection;
pub mod stack;
pub use self::stack::CallStack;
pub mod laws;

use vstd::prelude::*;

use crate::namespace::Namespace;

verus! {

/// The text of the error for a program without an analysis.
pub open spec fn no_analysis_text() -> Seq<char> {
    "program has no analysis stage. Nothing to output"@
}

/// Checks that the program has an analysis stage to lower: a root block
/// with a return expression.
pub fn build_cfg(namespace: &Namespace) -> (r: Result<(), String>)
    ensures
        r is Ok <==> (namespace@.own matches Some(b) && b.ret is Some),
        r matches Err(e) ==> e@ == no_analysis_text(),
{
    match namespace.get_own_block() {
        Option::None => Err(String::from_str("program has no analysis stage. Nothing to output")),
        Option::Some(bb) => match bb.get_return() {
            Option::None => Err(String::from_str("program has no analysis stage. Nothing to output")),
            Option::Some(_) => Ok(()),
        },
    }
}

} // verus!
