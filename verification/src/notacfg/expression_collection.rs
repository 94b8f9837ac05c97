use vstd::prelude::*;

use crate::parser_output::{Literal, Operation, TypeData};

verus! {

/// A lowered expression whose operands are referred to by hash.
#[derive(Debug, PartialEq, Eq, Hash)]
pub enum BlockExpression {
    Constant { literal: Literal, kind: TypeData },
    Function { name: String, args: Vec<u64>, kind: TypeData },
    Var { name: String, kind: TypeData },
    Op { left: u64, op: Operation, right: u64 },
}

} // verus!
