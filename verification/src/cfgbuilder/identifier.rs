//! Identifiers: names reduced to their hashes, either global or inside the
//! namespace of a function body.
use vstd::prelude::*;

use crate::hashing::{hash_str, str_hash};

verus! {

/// Identifier is used to identify a value. That value may or may not be
/// within a namespace (function body), therefore there are two variants
/// of identification: the hash of the name alone, or the hashes of the
/// namespace and of the name.
#[derive(Clone, Copy, Debug, PartialEq, Eq, Structural, PartialOrd, Ord, Hash)]
pub enum Identifier {
    Global(u64),
    Namespaced(u64, u64),
}

/// The identifier of `name`, inside `namespace` where there is one.
pub open spec fn spec_identifier(namespace: Option<Seq<char>>, name: Seq<char>) -> Identifier {
    match namespace {
        Some(n) => Identifier::Namespaced(str_hash(n), str_hash(name)),
        None => Identifier::Global(str_hash(name)),
    }
}

impl Identifier {
    /// The identifier of `name` inside the function `namespace`.
    pub fn new_namespaced(namespace: &str, name: &str) -> (r: Identifier)
        ensures
            r == Identifier::Namespaced(str_hash(namespace@), str_hash(name@)),
    {
        let namespace: u64 = hash_str(namespace);
        let name: u64 = hash_str(name);
        Identifier::Namespaced(namespace, name)
    }

    /// The identifier of the global `name`.
    pub fn new_global(name: &str) -> (r: Identifier)
        ensures
            r == Identifier::Global(str_hash(name@)),
    {
        Identifier::Global(hash_str(name))
    }

    /// The identifier of `name`, namespaced where a namespace is given.
    pub fn new(namespace: Option<&str>, name: &str) -> (r: Identifier)
        ensures
            r == spec_identifier(
                match namespace {
                    Some(n) => Some(n@),
                    None => None,
                },
                name@,
            ),
    {
        match namespace {
            Option::Some(n) => Identifier::new_namespaced(n, name),
            Option::None => Identifier::new_global(name),
        }
    }

    /// Whether the identifier lives inside a namespace.
    pub fn is_namespace(&self) -> (r: bool)
        ensures
            r == (*self is Namespaced),
    {
        match self {
            Identifier::Namespaced(_, _) => true,
            _ => false,
        }
    }

    /// Whether the identifier is global.
    pub fn is_global(&self) -> (r: bool)
        ensures
            r == (*self is Global),
    {
        !self.is_namespace()
    }
}

} // verus!
