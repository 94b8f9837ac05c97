//! Compiler front end for a small dice-probability language: abstract
//! syntax, name resolution and type checking, lowering to hashed
//! expressions, inlining with constant folding, and the dependency
//! graph that orders the inlined expressions.
pub mod hashing;
pub mod text;
pub mod printing;
pub mod parser_output;
pub mod namespace;
pub mod cfgbuilder;
pub mod assoc;
pub mod sorting;
pub mod exec;
pub mod inliner;
pub mod ordering;
pub mod linkage;
pub mod notacfg;
