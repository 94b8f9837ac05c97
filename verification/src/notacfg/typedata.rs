use vstd::prelude::*;

verus! {

/// FullTypeData encodes more than the plain type of a value: the range of
/// an integer, and other data such as the size of a collection.
pub enum FullTypeData {
    IntegerBounded(isize, isize),
    Boolean,
    Unknown,
}

} // verus!
