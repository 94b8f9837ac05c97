//! A single value of the language.
use vstd::prelude::*;

verus! {

/// A value: a boolean, an integer, or a collection of either.
#[derive(Debug, PartialEq, Eq, Hash)]
pub enum Datum {
    Bool(bool),
    Int(i32),
    CollectionOfBool(Vec<bool>),
    CollectionOfInt(Vec<i32>),
}

} // verus!
