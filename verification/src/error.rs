//! The lowering error taxonomy. Every lowering operation fails fast: the
//! first error stops the whole pass, and no partial item reaches the
//! output maps.

use vstd::prelude::*;
use crate::ast::Identifier;
use crate::ir::ItemId;

verus! {

#[derive(Clone, Copy, Debug, PartialEq, Eq, Structural)]
pub enum LowerError {
    /// A name used as a type or trait resolves to no parameter and no global.
    UnresolvedName(Identifier),
    /// A name resolves, but not to a trait, where a trait was required.
    NotATrait(Identifier),
    /// A type or trait applied with the wrong number of parameters.
    ArityMismatch { name: Identifier, expected: usize, actual: usize },
    /// A bound parameter used where only a global constructor is valid.
    InvalidUseOfParameter(Identifier),
    /// A projection names an associated type the resolved trait lacks.
    UnknownAssociatedType { trait_id: ItemId, name: Identifier },
    /// A lifetime name resolves to no bound lifetime parameter.
    UnresolvedLifetime(Identifier),
}

} // verus!
