use vstd::prelude::*;

verus! {

/// Identifier handles the two levels of names: those at the top level, and
/// those inside a function (the function's hash, then the name's).
#[derive(Copy, Clone, Debug, PartialEq, Eq, Structural, PartialOrd, Ord, Hash)]
pub enum Identifier {
    TopLevel(u64),
    Interior(u64, u64),
}

} // verus!
