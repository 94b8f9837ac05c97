//! The value held by an element of an outcome.
use vstd::prelude::*;

use crate::parser_output::TypeData;
use crate::sorting::{sort_bools, sort_ints, sorted_bools, sorted_ints};

verus! {

/// DataElement is the value contained within a tuple.
#[derive(Debug, PartialEq, Eq, Hash)]
pub enum DataElement {
    Bool(bool),
    Int(i32),
    CollofInt(Vec<i32>),
    CollofBool(Vec<bool>),
}

/// The type of a data element's value.
pub open spec fn element_type(e: DataElement) -> TypeData {
    match e {
        DataElement::Bool(_) => TypeData::Bool,
        DataElement::Int(_) => TypeData::Int,
        DataElement::CollofInt(_) => TypeData::CollectionOfInt,
        DataElement::CollofBool(_) => TypeData::CollectionOfBool,
    }
}

impl DataElement {
    /// Sorts the collection held: nothing changes for the `bool` and `int`
    /// variants, and a collection is put in order with the same elements.
    pub fn sort_internal(&mut self)
        ensures
            match *old(self) {
                DataElement::CollofInt(v) => *final(self) matches DataElement::CollofInt(w)
                    && sorted_ints(w@) && w@.to_multiset() == v@.to_multiset(),
                DataElement::CollofBool(v) => *final(self) matches DataElement::CollofBool(w)
                    && sorted_bools(w@) && w@.to_multiset() == v@.to_multiset(),
                _ => *final(self) == *old(self),
            },
    {
        match self {
            DataElement::Bool(_) | DataElement::Int(_) => {},
            DataElement::CollofInt(vec) => {
                sort_ints(vec);
            },
            DataElement::CollofBool(vec) => {
                sort_bools(vec);
            },
        }
    }

    /// Appends an integer to the collection of integers held.
    pub fn push_int(&mut self, x: i32)
        requires
            *old(self) is CollofInt,
        ensures
            *final(self) matches DataElement::CollofInt(w) && w@ == old(self)->CollofInt_0@.push(x),
    {
        match self {
            DataElement::CollofInt(vec) => {
                vec.push(x);
            },
            _ => {},
        }
    }

    /// The integers of the collection held.
    pub fn get_int_slice(&self) -> (r: &[i32])
        requires
            *self is CollofInt,
        ensures
            r@ == self->CollofInt_0@,
    {
        match self {
            DataElement::CollofInt(vec) => vec.as_slice(),
            _ => {
                proof {
                    assert(false);
                }
                &[]
            },
        }
    }

    /// Appends a boolean to the collection of booleans held.
    pub fn push_bool(&mut self, b: bool)
        requires
            *old(self) is CollofBool,
        ensures
            *final(self) matches DataElement::CollofBool(w) && w@ == old(self)->CollofBool_0@.push(b),
    {
        match self {
            DataElement::CollofBool(vec) => {
                vec.push(b);
            },
            _ => {},
        }
    }

    /// The booleans of the collection held.
    pub fn get_bool_slice(&self) -> (r: &[bool])
        requires
            *self is CollofBool,
        ensures
            r@ == self->CollofBool_0@,
    {
        match self {
            DataElement::CollofBool(vec) => vec.as_slice(),
            _ => {
                proof {
                    assert(false);
                }
                &[]
            },
        }
    }

    /// The boolean held.
    pub fn get_bool(&self) -> (r: bool)
        requires
            *self is Bool,
        ensures
            r == self->Bool_0,
    {
        match self {
            DataElement::Bool(b) => *b,
            _ => false,
        }
    }

    /// The integer held.
    pub fn get_int(&self) -> (r: i32)
        requires
            *self is Int,
        ensures
            r == self->Int_0,
    {
        match self {
            DataElement::Int(x) => *x,
            _ => 0,
        }
    }

    /// The type of the element.
    pub fn get_type(&self) -> (r: TypeData)
        ensures
            r == element_type(*self),
    {
        match self {
            DataElement::Bool(_) => TypeData::Bool,
            DataElement::Int(_) => TypeData::Int,
            DataElement::CollofInt(_) => TypeData::CollectionOfInt,
            DataElement::CollofBool(_) => TypeData::CollectionOfBool,
        }
    }
}

} // verus!
