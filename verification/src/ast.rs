//! The surface declaration tree: what the parser hands over, already
//! syntactically valid. Identifiers are opaque interned symbols; the
//! interning mechanism itself stays outside this library, which only
//! needs equality on the values it produces.

use vstd::prelude::*;

verus! {

/// An interned name. Equal surface text gives equal values; nothing else
/// is assumed of them. `SelfName` is the reserved, non-user-spellable
/// name of a trait's synthetic `Self` parameter: the interner never maps
/// user text to it.
#[derive(Clone, Copy, Debug, PartialEq, Eq, Hash, Structural)]
pub enum Identifier {
    Name(u64),
    SelfName,
}

/// A declared parameter: a type parameter or a lifetime parameter. The
/// two tags occupy logically separate name spaces (a type named `T` and
/// a lifetime named `T` never collide) but share one positional index
/// sequence. The payload is a name at the surface and `()` once the
/// parameter has been lowered into a quantifier node.
#[derive(Clone, Copy, Debug, PartialEq, Eq, Hash, Structural)]
pub enum ParameterKind<T> {
    Ty(T),
    Lifetime(T),
}

/// An ordered sequence of top-level declarations.
#[derive(Debug, PartialEq, Eq)]
pub struct Program {
    pub items: Vec<Item>,
}

#[derive(Debug, PartialEq, Eq)]
pub enum Item {
    StructDefn(StructDefn),
    TraitDefn(TraitDefn),
    Impl(Impl),
}

#[derive(Debug, PartialEq, Eq)]
pub struct StructDefn {
    pub name: Identifier,
    pub parameter_kinds: Vec<ParameterKind<Identifier>>,
    pub where_clauses: Vec<WhereClause>,
}

#[derive(Debug, PartialEq, Eq)]
pub struct TraitDefn {
    pub name: Identifier,
    pub parameter_kinds: Vec<ParameterKind<Identifier>>,
    pub where_clauses: Vec<WhereClause>,
    pub assoc_ty_names: Vec<Identifier>,
}

#[derive(Debug, PartialEq, Eq)]
pub struct Impl {
    pub parameter_kinds: Vec<ParameterKind<Identifier>>,
    pub trait_ref: TraitRef,
    pub where_clauses: Vec<WhereClause>,
    pub assoc_ty_values: Vec<AssocTyValue>,
}

/// A value an impl supplies for one of its trait's associated types.
#[derive(Debug, PartialEq, Eq)]
pub struct AssocTyValue {
    pub name: Identifier,
    pub value: Ty,
}

/// A surface type expression.
#[derive(Debug, PartialEq, Eq)]
pub enum Ty {
    /// A bare name: a bound parameter or a global constructor of arity 0.
    Id { name: Identifier },
    /// A named constructor applied to arguments.
    Apply { name: Identifier, args: Vec<Parameter> },
    /// A reference to an associated type.
    Projection { proj: ProjectionTy },
    /// A universally quantified type introducing lifetime binders.
    ForAll { lifetime_names: Vec<Identifier>, ty: Box<Ty> },
}

/// An argument in a type or trait application.
#[derive(Debug, PartialEq, Eq)]
pub enum Parameter {
    Ty(Ty),
    Lifetime(Lifetime),
}

#[derive(Clone, Copy, Debug, PartialEq, Eq, Structural)]
pub enum Lifetime {
    Id { name: Identifier },
}

/// An associated type applied through its owning trait: `<T as Trait<..>>::Name`.
#[derive(Debug, PartialEq, Eq)]
pub struct ProjectionTy {
    pub trait_ref: TraitRef,
    pub name: Identifier,
}

/// A trait applied to a full parameter list: the declared parameters in
/// order, then the self type last.
#[derive(Debug, PartialEq, Eq)]
pub struct TraitRef {
    pub trait_name: Identifier,
    pub args: Vec<Parameter>,
}

#[derive(Debug, PartialEq, Eq)]
pub enum WhereClause {
    Implemented { trait_ref: TraitRef },
    ProjectionEq { projection: ProjectionTy, ty: Ty },
}

impl StructDefn {
    pub fn where_clauses(&self) -> (r: &Vec<WhereClause>)
        ensures
            r@ == self.where_clauses@,
    {
        &self.where_clauses
    }
}

impl TraitDefn {
    pub fn where_clauses(&self) -> (r: &Vec<WhereClause>)
        ensures
            r@ == self.where_clauses@,
    {
        &self.where_clauses
    }
}

impl Impl {
    pub fn where_clauses(&self) -> (r: &Vec<WhereClause>)
        ensures
            r@ == self.where_clauses@,
    {
        &self.where_clauses
    }
}

/// A logical query to lower against a finished program.
#[derive(Debug, PartialEq, Eq)]
pub enum Goal {
    ForAll(Vec<ParameterKind<Identifier>>, Box<Goal>),
    Exists(Vec<ParameterKind<Identifier>>, Box<Goal>),
    Implies(WhereClause, Box<Goal>),
    And(Box<Goal>, Box<Goal>),
    Leaf(WhereClause),
    WellFormed(Ty),
}

} // verus!
