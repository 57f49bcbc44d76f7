//! Lowering of a surface declaration language — struct, trait and impl
//! definitions, where-clauses, and logical goals — into a canonical
//! intermediate representation whose names are resolved to numeric
//! identities and whose bound parameters are positional indices.

pub mod ast;
pub mod env;
pub mod error;
pub mod goal;
pub mod laws;
pub mod ir;
pub mod lower;
pub mod maps;
pub mod program;
