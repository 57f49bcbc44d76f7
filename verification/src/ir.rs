//! The lowered intermediate representation. Every name is resolved to a
//! numeric identity, every bound parameter to a positional index; the
//! structure a trait leaves implicit at the surface (its own `Self`
//! parameter, an associated type's implicit trait bound) is explicit.

use vstd::prelude::*;
use crate::ast::{Identifier, ParameterKind};
use crate::maps::{AssocNameMap, IdMap, NameMap};

verus! {

/// A densely assigned numeric identity, unique across all structs,
/// traits and associated-type declarations of one program. Assigned
/// once, never reused, never mutated.
#[derive(Clone, Copy, Debug, PartialEq, Eq, Hash, Structural)]
pub struct ItemId {
    pub index: usize,
}

#[derive(Clone, Copy, Debug, PartialEq, Eq, Structural)]
pub enum TypeSort {
    Struct,
    Trait,
}

/// Descriptor of a type-level name as usable as a type constructor. For
/// a trait, the synthetic `Self` parameter is excluded here.
#[derive(Debug, PartialEq, Eq)]
pub struct TypeKind {
    pub sort: TypeSort,
    pub name: Identifier,
    pub parameter_kinds: Vec<ParameterKind<Identifier>>,
}

#[derive(Clone, Copy, Debug, PartialEq, Eq, Structural)]
pub enum TypeName {
    ItemId(ItemId),
}

/// A lowered type expression.
#[derive(Debug, PartialEq, Eq)]
pub enum Ty {
    /// A bound parameter, by positional index into the enclosing binders.
    Var(usize),
    /// A constructor applied to exactly its declared parameter count.
    Apply(ApplicationTy),
    Projection(ProjectionTy),
    /// A universally quantified type and the count of lifetime binders
    /// it introduces.
    ForAll(Box<QuantifiedTy>),
}

#[derive(Debug, PartialEq, Eq)]
pub struct ApplicationTy {
    pub name: TypeName,
    pub parameters: Vec<Parameter>,
}

#[derive(Debug, PartialEq, Eq)]
pub struct QuantifiedTy {
    pub num_binders: usize,
    pub ty: Ty,
}

#[derive(Clone, Copy, Debug, PartialEq, Eq, Structural)]
pub enum Lifetime {
    Var(usize),
}

#[derive(Debug, PartialEq, Eq)]
pub enum Parameter {
    Ty(Ty),
    Lifetime(Lifetime),
}

/// A trait identity plus its full ordered parameter list: the declared
/// parameters first, the self type last.
#[derive(Debug, PartialEq, Eq)]
pub struct TraitRef {
    pub trait_id: ItemId,
    pub parameters: Vec<Parameter>,
}

/// An associated type plus the parameters needed to resolve it, taken
/// from the lowering of its owning trait reference.
#[derive(Debug, PartialEq, Eq)]
pub struct ProjectionTy {
    pub associated_ty_id: ItemId,
    pub parameters: Vec<Parameter>,
}

/// An equality constraint: the projection normalizes to the type.
#[derive(Debug, PartialEq, Eq)]
pub struct Normalize {
    pub projection: ProjectionTy,
    pub ty: Ty,
}

#[derive(Debug, PartialEq, Eq)]
pub enum WhereClause {
    Implemented(TraitRef),
    Normalize(Normalize),
}

/// An atomic constraint at the leaf of a goal; a superset of
/// `WhereClause` that can also state well-formedness of a type.
#[derive(Debug, PartialEq, Eq)]
pub enum WhereClauseGoal {
    Implemented(TraitRef),
    Normalize(Normalize),
    WellFormed(Ty),
}

#[derive(Clone, Copy, Debug, PartialEq, Eq, Structural)]
pub enum QuantifierKind {
    ForAll,
    Exists,
}

/// A lowered logical formula. Each quantifier node binds exactly one
/// parameter; a surface quantifier over a list becomes a right-nested
/// chain of these, outermost first.
#[derive(Debug, PartialEq, Eq)]
pub enum Goal {
    Quantified(QuantifierKind, ParameterKind<()>, Box<Goal>),
    Implies(WhereClause, Box<Goal>),
    And(Box<Goal>, Box<Goal>),
    Leaf(WhereClauseGoal),
}

/// A trait's full parameter list in order — declared parameters first,
/// the synthetic `Self` type parameter last — and its lowered
/// where-clauses.
#[derive(Debug, PartialEq, Eq)]
pub struct TraitData {
    pub parameter_kinds: Vec<ParameterKind<Identifier>>,
    pub where_clauses: Vec<WhereClause>,
}

#[derive(Debug, PartialEq, Eq)]
pub struct ImplData {
    pub trait_ref: TraitRef,
    pub parameter_kinds: Vec<ParameterKind<Identifier>>,
    pub assoc_ty_values: Vec<AssocTyValue>,
    pub where_clauses: Vec<WhereClause>,
}

#[derive(Debug, PartialEq, Eq)]
pub struct AssocTyValue {
    pub name: Identifier,
    pub value: Ty,
}

/// An associated-type declaration: its owning trait, its name, a copy of
/// the owning trait's full parameter list, and exactly one implicit
/// where-clause — the owning trait, applied to these same parameters, is
/// implemented.
#[derive(Debug, PartialEq, Eq)]
pub struct AssociatedTyData {
    pub trait_id: ItemId,
    pub name: Identifier,
    pub parameter_kinds: Vec<ParameterKind<Identifier>>,
    pub where_clauses: Vec<WhereClause>,
}

/// The aggregate output of lowering a program: a pure snapshot, built in
/// one pass and immutable thereafter.
#[derive(Debug, PartialEq, Eq)]
pub struct Program {
    pub type_ids: NameMap,
    pub type_kinds: IdMap<TypeKind>,
    pub trait_data: IdMap<TraitData>,
    pub impl_data: IdMap<ImplData>,
    pub associated_ty_data: IdMap<AssociatedTyData>,
}

impl WhereClause {
    /// The value of a where-clause read as an atomic goal.
    pub open spec fn cast_spec(self) -> WhereClauseGoal {
        match self {
            WhereClause::Implemented(tr) => WhereClauseGoal::Implemented(tr),
            WhereClause::Normalize(n) => WhereClauseGoal::Normalize(n),
        }
    }

    /// Re-tags a where-clause as an atomic goal leaf.
    pub fn cast(self) -> (r: WhereClauseGoal)
        ensures
            r == self.cast_spec(),
    {
        match self {
            WhereClause::Implemented(tr) => WhereClauseGoal::Implemented(tr),
            WhereClause::Normalize(n) => WhereClauseGoal::Normalize(n),
        }
    }
}

} // verus!
