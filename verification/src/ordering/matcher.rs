//! Matches: the identifier of an expression together with the type it is
//! used at.
use vstd::prelude::*;

use crate::parser_output::TypeData;

verus! {

/// Match identifies "things to change": an expression's hash and a type,
/// which together identify an expression within the context of its
/// operation.
#[derive(Clone, Copy, Debug, PartialEq, Eq, Structural, PartialOrd, Ord, Hash)]
pub struct Match {
    pub kind: TypeData,
    pub id: u64,
}

impl Default for Match {
    fn default() -> (r: Match)
        ensures
            r == (Match { kind: TypeData::Bool, id: 0 }),
    {
        Match { kind: TypeData::Bool, id: 0 }
    }
}

impl Match {
    /// The match of expression `id` used as `kind`.
    pub fn new(id: u64, kind: TypeData) -> (r: Match)
        ensures
            r == (Match { kind, id }),
    {
        Match { kind, id }
    }
}

/// Anything that carries a match.
pub trait MatchTrait {
    /// The match carried.
    spec fn spec_match(&self) -> Match;

    /// The type of the match.
    fn get_kind(&self) -> (r: TypeData)
        ensures
            r == self.spec_match().kind,
    ;

    /// The expression identifier of the match.
    fn get_id(&self) -> (r: u64)
        ensures
            r == self.spec_match().id,
    ;
}

impl MatchTrait for Match {
    open spec fn spec_match(&self) -> Match {
        *self
    }

    fn get_kind(&self) -> (r: TypeData) {
        self.kind
    }

    fn get_id(&self) -> (r: u64) {
        self.id
    }
}

} // verus!
