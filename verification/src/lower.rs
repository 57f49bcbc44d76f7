//! Lowering of type expressions, trait references, projections and
//! where-clauses. Each executable lowerer carries an exact contract made
//! of two spec families: a first-error function (`..._err`) saying
//! precisely on which inputs lowering succeeds and, if not, which error
//! comes first, and a value relation (`..._lowers_to`) pinning the
//! produced value down when it does.

use vstd::prelude::*;
use crate::ast;
use crate::ast::{Identifier, ParameterKind};
use crate::env::{
    lookup_spec, param_index, Env, EnvModel, LifetimeLookup, NameLookup,
};
use crate::error::LowerError;
use crate::ir;
use crate::ir::ItemId;

verus! {

// ===== lifetimes =====

/// Success condition of lowering a lifetime: its name is bound.
pub open spec fn lifetime_err(m: EnvModel, l: ast::Lifetime) -> Option<LowerError> {
    match l {
        ast::Lifetime::Id { name } => {
            if param_index(m.params, ParameterKind::Lifetime(name)) >= 0 {
                None
            } else {
                Some(LowerError::UnresolvedLifetime(name))
            }
        },
    }
}

/// The lowered lifetime: the bound parameter's positional index.
pub open spec fn lifetime_lower_spec(m: EnvModel, l: ast::Lifetime) -> ir::Lifetime {
    match l {
        ast::Lifetime::Id { name } => ir::Lifetime::Var(
            param_index(m.params, ParameterKind::Lifetime(name)) as usize,
        ),
    }
}

/// Lifetime names read as lifetime binders.
pub open spec fn lifetime_pks(names: Seq<Identifier>) -> Seq<ParameterKind<Identifier>> {
    names.map_values(|n: Identifier| ParameterKind::Lifetime(n))
}

/// The identity a trait reference's name resolves to; meaningful only
/// when resolution succeeded.
pub open spec fn trait_ref_target(m: EnvModel, tr: ast::TraitRef) -> ItemId {
    match lookup_spec(m, tr.trait_name) {
        Result::Ok(NameLookup::Type(id)) => id,
        _ => ItemId { index: 0 },
    }
}

// ===== first-error functions =====

/// The first error lowering a type meets, or `None` when it succeeds.
pub open spec fn ty_err(m: EnvModel, t: ast::Ty) -> Option<LowerError>
    decreases t, 1int,
{
    match t {
        ast::Ty::Id { name } => match lookup_spec(m, name) {
            Result::Err(e) => Some(e),
            Result::Ok(NameLookup::Parameter(idx)) => None,
            Result::Ok(NameLookup::Type(id)) => {
                let k = m.type_kinds[id.index as int];
                if k.parameter_kinds.len() > 0 {
                    Some(
                        LowerError::ArityMismatch {
                            name,
                            expected: k.parameter_kinds.len() as usize,
                            actual: 0,
                        },
                    )
                } else {
                    None
                }
            },
        },
        ast::Ty::Apply { name, args } => match lookup_spec(m, name) {
            Result::Err(e) => Some(e),
            Result::Ok(NameLookup::Parameter(idx)) => Some(LowerError::InvalidUseOfParameter(name)),
            Result::Ok(NameLookup::Type(id)) => {
                let k = m.type_kinds[id.index as int];
                if k.parameter_kinds.len() != args@.len() {
                    Some(
                        LowerError::ArityMismatch {
                            name,
                            expected: k.parameter_kinds.len() as usize,
                            actual: args@.len() as usize,
                        },
                    )
                } else {
                    params_err(m, args@)
                }
            },
        },
        ast::Ty::Projection { proj } => projection_err(m, proj),
        ast::Ty::ForAll { lifetime_names, ty } => ty_err(
            m.with_params(lifetime_pks(lifetime_names@) + m.params),
            *ty,
        ),
    }
}

pub open spec fn param_err(m: EnvModel, p: ast::Parameter) -> Option<LowerError>
    decreases p, 1int,
{
    match p {
        ast::Parameter::Ty(t) => ty_err(m, t),
        ast::Parameter::Lifetime(l) => lifetime_err(m, l),
    }
}

/// The first error among the arguments of an application, in order.
pub open spec fn params_err(m: EnvModel, ps: Seq<ast::Parameter>) -> Option<LowerError>
    decreases ps, 1int,
{
    if ps.len() == 0 {
        None
    } else {
        match param_err(m, ps[0]) {
            Some(e) => Some(e),
            None => params_err(m, ps.skip(1)),
        }
    }
}

/// The first error lowering a trait reference meets: the name must
/// resolve to a global trait, the argument count must equal the trait's
/// full parameter count — its declared parameters plus the self type —
/// and the arguments must lower.
pub open spec fn trait_ref_err(m: EnvModel, tr: ast::TraitRef) -> Option<LowerError>
    decreases tr, 1int,
{
    match lookup_spec(m, tr.trait_name) {
        Result::Err(e) => Some(e),
        Result::Ok(NameLookup::Parameter(idx)) => Some(LowerError::NotATrait(tr.trait_name)),
        Result::Ok(NameLookup::Type(id)) => {
            let k = m.type_kinds[id.index as int];
            if k.sort != ir::TypeSort::Trait {
                Some(LowerError::NotATrait(tr.trait_name))
            } else if k.parameter_kinds.len() + 1 != tr.args@.len() {
                Some(
                    LowerError::ArityMismatch {
                        name: tr.trait_name,
                        expected: (k.parameter_kinds.len() + 1) as usize,
                        actual: tr.args@.len() as usize,
                    },
                )
            } else {
                params_err(m, tr.args@)
            }
        },
    }
}

/// The first error lowering a projection meets: its owning trait
/// reference must lower, and the named associated type must be declared
/// on the resolved trait.
pub open spec fn projection_err(m: EnvModel, p: ast::ProjectionTy) -> Option<LowerError>
    decreases p, 1int,
{
    match trait_ref_err(m, p.trait_ref) {
        Some(e) => Some(e),
        None => {
            let trait_id = trait_ref_target(m, p.trait_ref);
            if m.assoc_ty_ids.contains_key((trait_id.index as int, p.name)) {
                None
            } else {
                Some(LowerError::UnknownAssociatedType { trait_id, name: p.name })
            }
        },
    }
}

pub open spec fn wc_err(m: EnvModel, wc: ast::WhereClause) -> Option<LowerError> {
    match wc {
        ast::WhereClause::Implemented { trait_ref } => trait_ref_err(m, trait_ref),
        ast::WhereClause::ProjectionEq { projection, ty } => match projection_err(m, projection) {
            Some(e) => Some(e),
            None => ty_err(m, ty),
        },
    }
}

/// The first error among a where-clause list, in order.
pub open spec fn wcs_err(m: EnvModel, wcs: Seq<ast::WhereClause>) -> Option<LowerError>
    decreases wcs.len(),
{
    if wcs.len() == 0 {
        None
    } else {
        match wc_err(m, wcs[0]) {
            Some(e) => Some(e),
            None => wcs_err(m, wcs.skip(1)),
        }
    }
}

// ===== value relations =====

/// Relates a surface type to its lowered form; deterministic, and
/// meaningful when `ty_err` is `None`.
pub open spec fn ty_lowers_to(m: EnvModel, t: ast::Ty, v: ir::Ty) -> bool
    decreases t, 1int,
{
    match t {
        ast::Ty::Id { name } => match lookup_spec(m, name) {
            Result::Ok(NameLookup::Parameter(idx)) => v == ir::Ty::Var(idx),
            Result::Ok(NameLookup::Type(id)) => match v {
                ir::Ty::Apply(app) => app.name == ir::TypeName::ItemId(id)
                    && app.parameters@.len() == 0,
                _ => false,
            },
            Result::Err(e) => false,
        },
        ast::Ty::Apply { name, args } => match lookup_spec(m, name) {
            Result::Ok(NameLookup::Type(id)) => match v {
                ir::Ty::Apply(app) => app.name == ir::TypeName::ItemId(id) && params_lower_to(
                    m,
                    args@,
                    app.parameters@,
                ),
                _ => false,
            },
            _ => false,
        },
        ast::Ty::Projection { proj } => match v {
            ir::Ty::Projection(p) => projection_lowers_to(m, proj, p),
            _ => false,
        },
        ast::Ty::ForAll { lifetime_names, ty } => match v {
            ir::Ty::ForAll(q) => (*q).num_binders == lifetime_names@.len() && ty_lowers_to(
                m.with_params(lifetime_pks(lifetime_names@) + m.params),
                *ty,
                (*q).ty,
            ),
            _ => false,
        },
    }
}

pub open spec fn param_lowers_to(m: EnvModel, p: ast::Parameter, v: ir::Parameter) -> bool
    decreases p, 1int,
{
    match p {
        ast::Parameter::Ty(t) => match v {
            ir::Parameter::Ty(vt) => ty_lowers_to(m, t, vt),
            _ => false,
        },
        ast::Parameter::Lifetime(l) => match v {
            ir::Parameter::Lifetime(vl) => vl == lifetime_lower_spec(m, l),
            _ => false,
        },
    }
}

/// Relates an argument list to its lowered form, position by position.
pub open spec fn params_lower_to(m: EnvModel, ps: Seq<ast::Parameter>, vs: Seq<ir::Parameter>) -> bool
    decreases ps, 1int,
{
    &&& vs.len() == ps.len()
    &&& forall|j: int| 0 <= j < ps.len() ==> param_lowers_to(m, ps[j], #[trigger] vs[j])
}

/// Relates a surface trait reference to its lowered form: the resolved
/// trait identity plus the lowered arguments in order.
pub open spec fn trait_ref_lowers_to(m: EnvModel, tr: ast::TraitRef, v: ir::TraitRef) -> bool
    decreases tr, 1int,
{
    &&& v.trait_id == trait_ref_target(m, tr)
    &&& params_lower_to(m, tr.args@, v.parameters@)
}

/// Relates a surface projection to its lowered form: the associated
/// type's identity, and exactly the parameters of the lowered owning
/// trait reference, not re-derived independently.
pub open spec fn projection_lowers_to(m: EnvModel, p: ast::ProjectionTy, v: ir::ProjectionTy) -> bool
    decreases p, 1int,
{
    &&& v.associated_ty_id == m.assoc_ty_ids[
        ((trait_ref_target(m, p.trait_ref).index as int), p.name)
    ]
    &&& params_lower_to(m, p.trait_ref.args@, v.parameters@)
}

pub open spec fn wc_lowers_to(m: EnvModel, wc: ast::WhereClause, v: ir::WhereClause) -> bool {
    match wc {
        ast::WhereClause::Implemented { trait_ref } => match v {
            ir::WhereClause::Implemented(tr) => trait_ref_lowers_to(m, trait_ref, tr),
            _ => false,
        },
        ast::WhereClause::ProjectionEq { projection, ty } => match v {
            ir::WhereClause::Normalize(n) => projection_lowers_to(m, projection, n.projection)
                && ty_lowers_to(m, ty, n.ty),
            _ => false,
        },
    }
}

/// Relates a where-clause list to its lowered form, position by
/// position.
pub open spec fn wcs_lower_to(m: EnvModel, wcs: Seq<ast::WhereClause>, vs: Seq<ir::WhereClause>) -> bool {
    &&& vs.len() == wcs.len()
    &&& forall|j: int| 0 <= j < wcs.len() ==> wc_lowers_to(m, wcs[j], #[trigger] vs[j])
}

// ===== first-error decomposition lemmas =====

proof fn lemma_params_err_at(m: EnvModel, ps: Seq<ast::Parameter>, i: int, e: LowerError)
    requires
        0 <= i < ps.len(),
        forall|j: int| 0 <= j < i ==> param_err(m, #[trigger] ps[j]) is None,
        param_err(m, ps[i]) == Some(e),
    ensures
        params_err(m, ps) == Some(e),
    decreases i,
{
    if i == 0 {
    } else {
        assert(param_err(m, ps[0]) is None);
        assert forall|j: int| 0 <= j < i - 1 implies param_err(m, #[trigger] ps.skip(1)[j]) is None by {
            assert(ps.skip(1)[j] == ps[j + 1]);
        }
        assert(ps.skip(1)[i - 1] == ps[i]);
        lemma_params_err_at(m, ps.skip(1), i - 1, e);
    }
}

proof fn lemma_params_err_none(m: EnvModel, ps: Seq<ast::Parameter>)
    requires
        forall|j: int| 0 <= j < ps.len() ==> param_err(m, #[trigger] ps[j]) is None,
    ensures
        params_err(m, ps) is None,
    decreases ps.len(),
{
    if ps.len() > 0 {
        assert forall|j: int| 0 <= j < ps.skip(1).len() implies param_err(
            m,
            #[trigger] ps.skip(1)[j],
        ) is None by {
            assert(ps.skip(1)[j] == ps[j + 1]);
        }
        lemma_params_err_none(m, ps.skip(1));
    }
}

proof fn lemma_wcs_err_at(m: EnvModel, wcs: Seq<ast::WhereClause>, i: int, e: LowerError)
    requires
        0 <= i < wcs.len(),
        forall|j: int| 0 <= j < i ==> wc_err(m, #[trigger] wcs[j]) is None,
        wc_err(m, wcs[i]) == Some(e),
    ensures
        wcs_err(m, wcs) == Some(e),
    decreases i,
{
    if i == 0 {
    } else {
        assert(wc_err(m, wcs[0]) is None);
        assert forall|j: int| 0 <= j < i - 1 implies wc_err(m, #[trigger] wcs.skip(1)[j]) is None by {
            assert(wcs.skip(1)[j] == wcs[j + 1]);
        }
        assert(wcs.skip(1)[i - 1] == wcs[i]);
        lemma_wcs_err_at(m, wcs.skip(1), i - 1, e);
    }
}

proof fn lemma_wcs_err_none(m: EnvModel, wcs: Seq<ast::WhereClause>)
    requires
        forall|j: int| 0 <= j < wcs.len() ==> wc_err(m, #[trigger] wcs[j]) is None,
    ensures
        wcs_err(m, wcs) is None,
    decreases wcs.len(),
{
    if wcs.len() > 0 {
        assert forall|j: int| 0 <= j < wcs.skip(1).len() implies wc_err(
            m,
            #[trigger] wcs.skip(1)[j],
        ) is None by {
            assert(wcs.skip(1)[j] == wcs[j + 1]);
        }
        lemma_wcs_err_none(m, wcs.skip(1));
    }
}

// ===== executable lowering =====

impl ast::Lifetime {
    /// Lowers a lifetime to the positional index of the bound lifetime
    /// parameter it names.
    pub fn lower(&self, env: &Env) -> (r: Result<ir::Lifetime, LowerError>)
        ensures
            match r {
                Result::Ok(v) => lifetime_err(env.model(), *self) is None && v
                    == lifetime_lower_spec(env.model(), *self),
                Result::Err(e) => lifetime_err(env.model(), *self) == Some(e),
            },
    {
        match *self {
            ast::Lifetime::Id { name } => match env.lookup_lifetime(name) {
                Result::Ok(LifetimeLookup::Parameter(d)) => Result::Ok(ir::Lifetime::Var(d)),
                Result::Err(e) => Result::Err(e),
            },
        }
    }
}

/// Builds the binder list a quantified type introduces: each lifetime
/// name as one lifetime parameter, in order.
fn lifetime_binders(names: &Vec<Identifier>) -> (r: Vec<ParameterKind<Identifier>>)
    ensures
        r@ == lifetime_pks(names@),
{
    let mut r: Vec<ParameterKind<Identifier>> = Vec::new();
    let mut i: usize = 0;
    while i < names.len()
        invariant
            i <= names@.len(),
            r@ == lifetime_pks(names@.take(i as int)),
        decreases names@.len() - i,
    {
        r.push(ParameterKind::Lifetime(names[i]));
        proof {
            assert(lifetime_pks(names@.take(i as int)).push(
                ParameterKind::Lifetime(names@[i as int]),
            ) =~= lifetime_pks(names@.take(i as int + 1)));
        }
        i = i + 1;
    }
    proof {
        assert(names@.take(names@.len() as int) =~= names@);
    }
    r
}

impl ast::Ty {
    /// Lowers a type expression. Succeeds exactly when every name in it
    /// resolves, every application matches its constructor's declared
    /// arity, and every projection names a declared associated type; the
    /// produced value is pinned down by `ty_lowers_to`.
    pub fn lower(&self, env: &Env) -> (r: Result<ir::Ty, LowerError>)
        requires
            env.model().wf(),
        ensures
            match r {
                Result::Ok(v) => ty_err(env.model(), *self) is None && ty_lowers_to(
                    env.model(),
                    *self,
                    v,
                ),
                Result::Err(e) => ty_err(env.model(), *self) == Some(e),
            },
        decreases *self, 1int,
    {
        match self {
            ast::Ty::Id { name } => {
                let name = *name;
                match env.lookup(name) {
                    Result::Err(e) => Result::Err(e),
                    Result::Ok(NameLookup::Parameter(d)) => Result::Ok(ir::Ty::Var(d)),
                    Result::Ok(NameLookup::Type(id)) => {
                        let k = env.type_kind(id);
                        let expected = k.parameter_kinds.len();
                        if expected > 0 {
                            Result::Err(LowerError::ArityMismatch { name, expected, actual: 0 })
                        } else {
                            Result::Ok(
                                ir::Ty::Apply(
                                    ir::ApplicationTy {
                                        name: ir::TypeName::ItemId(id),
                                        parameters: Vec::new(),
                                    },
                                ),
                            )
                        }
                    },
                }
            },
            ast::Ty::Apply { name, args } => {
                let name = *name;
                match env.lookup(name) {
                    Result::Err(e) => Result::Err(e),
                    Result::Ok(NameLookup::Parameter(_)) => Result::Err(
                        LowerError::InvalidUseOfParameter(name),
                    ),
                    Result::Ok(NameLookup::Type(id)) => {
                        let k = env.type_kind(id);
                        let expected = k.parameter_kinds.len();
                        if expected != args.len() {
                            Result::Err(
                                LowerError::ArityMismatch { name, expected, actual: args.len() },
                            )
                        } else {
                            match lower_parameter_list(args, env) {
                                Result::Err(e) => Result::Err(e),
                                Result::Ok(parameters) => Result::Ok(
                                    ir::Ty::Apply(
                                        ir::ApplicationTy {
                                            name: ir::TypeName::ItemId(id),
                                            parameters,
                                        },
                                    ),
                                ),
                            }
                        }
                    },
                }
            },
            ast::Ty::Projection { proj } => match proj.lower(env) {
                Result::Err(e) => Result::Err(e),
                Result::Ok(p) => Result::Ok(ir::Ty::Projection(p)),
            },
            ast::Ty::ForAll { lifetime_names, ty } => {
                let binders = lifetime_binders(lifetime_names);
                let quantified_env = env.introduce(&binders);
                match ty.lower(&quantified_env) {
                    Result::Err(e) => Result::Err(e),
                    Result::Ok(t) => Result::Ok(
                        ir::Ty::ForAll(
                            Box::new(
                                ir::QuantifiedTy { num_binders: lifetime_names.len(), ty: t },
                            ),
                        ),
                    ),
                }
            },
        }
    }
}

impl ast::Parameter {
    /// Lowers one application argument, type or lifetime.
    pub fn lower(&self, env: &Env) -> (r: Result<ir::Parameter, LowerError>)
        requires
            env.model().wf(),
        ensures
            match r {
                Result::Ok(v) => param_err(env.model(), *self) is None && param_lowers_to(
                    env.model(),
                    *self,
                    v,
                ),
                Result::Err(e) => param_err(env.model(), *self) == Some(e),
            },
        decreases *self, 1int,
    {
        match self {
            ast::Parameter::Ty(t) => match t.lower(env) {
                Result::Err(e) => Result::Err(e),
                Result::Ok(v) => Result::Ok(ir::Parameter::Ty(v)),
            },
            ast::Parameter::Lifetime(l) => match l.lower(env) {
                Result::Err(e) => Result::Err(e),
                Result::Ok(v) => Result::Ok(ir::Parameter::Lifetime(v)),
            },
        }
    }
}

/// Lowers an argument list in order, stopping at the first failing
/// argument.
pub fn lower_parameter_list(args: &Vec<ast::Parameter>, env: &Env) -> (r: Result<
    Vec<ir::Parameter>,
    LowerError,
>)
    requires
        env.model().wf(),
    ensures
        match r {
            Result::Ok(vs) => params_err(env.model(), args@) is None && params_lower_to(
                env.model(),
                args@,
                vs@,
            ),
            Result::Err(e) => params_err(env.model(), args@) == Some(e),
        },
    decreases args@, 1int,
{
    let mut out: Vec<ir::Parameter> = Vec::new();
    let mut i: usize = 0;
    while i < args.len()
        invariant
            env.model().wf(),
            i <= args@.len(),
            out@.len() == i,
            forall|j: int| 0 <= j < i ==> param_lowers_to(env.model(), args@[j], #[trigger] out@[j]),
            forall|j: int| 0 <= j < i ==> param_err(env.model(), #[trigger] args@[j]) is None,
        decreases args@.len() - i,
    {
        match (&args[i]).lower(env) {
            Result::Err(e) => {
                proof {
                    lemma_params_err_at(env.model(), args@, i as int, e);
                }
                return Result::Err(e);
            },
            Result::Ok(v) => {
                out.push(v);
            },
        }
        i = i + 1;
    }
    proof {
        lemma_params_err_none(env.model(), args@);
    }
    Result::Ok(out)
}

impl ast::TraitRef {
    /// Lowers a trait reference: the name must resolve to a global
    /// trait, and the arguments — the declared parameters plus the self
    /// type, in that order — must match the trait's full parameter count
    /// and each lower.
    pub fn lower(&self, env: &Env) -> (r: Result<ir::TraitRef, LowerError>)
        requires
            env.model().wf(),
        ensures
            match r {
                Result::Ok(v) => trait_ref_err(env.model(), *self) is None && trait_ref_lowers_to(
                    env.model(),
                    *self,
                    v,
                ),
                Result::Err(e) => trait_ref_err(env.model(), *self) == Some(e),
            },
        decreases *self, 1int,
    {
        let name = self.trait_name;
        match env.lookup(name) {
            Result::Err(e) => Result::Err(e),
            Result::Ok(NameLookup::Parameter(_)) => Result::Err(LowerError::NotATrait(name)),
            Result::Ok(NameLookup::Type(id)) => {
                let k = env.type_kind(id);
                let declared = k.parameter_kinds.len();
                let sort_ok = matches!(k.sort, ir::TypeSort::Trait);
                if !sort_ok {
                    Result::Err(LowerError::NotATrait(name))
                } else if !(self.args.len() > 0 && self.args.len() - 1 == declared) {
                    Result::Err(
                        LowerError::ArityMismatch {
                            name,
                            expected: declared + 1,
                            actual: self.args.len(),
                        },
                    )
                } else {
                    match lower_parameter_list(&self.args, env) {
                        Result::Err(e) => Result::Err(e),
                        Result::Ok(parameters) => Result::Ok(
                            ir::TraitRef { trait_id: id, parameters },
                        ),
                    }
                }
            },
        }
    }
}

impl ast::ProjectionTy {
    /// Lowers a projection: first the owning trait reference in full,
    /// then the associated-type name looked up on the resolved trait.
    /// The projection carries exactly the trait reference's parameters.
    pub fn lower(&self, env: &Env) -> (r: Result<ir::ProjectionTy, LowerError>)
        requires
            env.model().wf(),
        ensures
            match r {
                Result::Ok(v) => projection_err(env.model(), *self) is None && projection_lowers_to(
                    env.model(),
                    *self,
                    v,
                ),
                Result::Err(e) => projection_err(env.model(), *self) == Some(e),
            },
        decreases *self, 1int,
    {
        match self.trait_ref.lower(env) {
            Result::Err(e) => Result::Err(e),
            Result::Ok(tr) => {
                let trait_id = tr.trait_id;
                match env.associated_ty_ids.get(trait_id, self.name) {
                    Some(associated_ty_id) => Result::Ok(
                        ir::ProjectionTy { associated_ty_id, parameters: tr.parameters },
                    ),
                    None => Result::Err(
                        LowerError::UnknownAssociatedType { trait_id, name: self.name },
                    ),
                }
            },
        }
    }
}

impl ast::WhereClause {
    /// Lowers one where-clause: an implemented-trait bound, or a
    /// projection-equality that becomes a normalization constraint.
    pub fn lower(&self, env: &Env) -> (r: Result<ir::WhereClause, LowerError>)
        requires
            env.model().wf(),
        ensures
            match r {
                Result::Ok(v) => wc_err(env.model(), *self) is None && wc_lowers_to(
                    env.model(),
                    *self,
                    v,
                ),
                Result::Err(e) => wc_err(env.model(), *self) == Some(e),
            },
        decreases *self, 1int,
    {
        match self {
            ast::WhereClause::Implemented { trait_ref } => match trait_ref.lower(env) {
                Result::Err(e) => Result::Err(e),
                Result::Ok(tr) => Result::Ok(ir::WhereClause::Implemented(tr)),
            },
            ast::WhereClause::ProjectionEq { projection, ty } => match projection.lower(env) {
                Result::Err(e) => Result::Err(e),
                Result::Ok(p) => match ty.lower(env) {
                    Result::Err(e) => Result::Err(e),
                    Result::Ok(t) => Result::Ok(
                        ir::WhereClause::Normalize(ir::Normalize { projection: p, ty: t }),
                    ),
                },
            },
        }
    }
}

/// Lowers a where-clause list in order, stopping at the first failing
/// clause.
pub fn lower_where_clause_list(wcs: &Vec<ast::WhereClause>, env: &Env) -> (r: Result<
    Vec<ir::WhereClause>,
    LowerError,
>)
    requires
        env.model().wf(),
    ensures
        match r {
            Result::Ok(vs) => wcs_err(env.model(), wcs@) is None && wcs_lower_to(
                env.model(),
                wcs@,
                vs@,
            ),
            Result::Err(e) => wcs_err(env.model(), wcs@) == Some(e),
        },
{
    let mut out: Vec<ir::WhereClause> = Vec::new();
    let mut i: usize = 0;
    while i < wcs.len()
        invariant
            env.model().wf(),
            i <= wcs@.len(),
            out@.len() == i,
            forall|j: int| 0 <= j < i ==> wc_lowers_to(env.model(), wcs@[j], #[trigger] out@[j]),
            forall|j: int| 0 <= j < i ==> wc_err(env.model(), #[trigger] wcs@[j]) is None,
        decreases wcs@.len() - i,
    {
        match (&wcs[i]).lower(env) {
            Result::Err(e) => {
                proof {
                    lemma_wcs_err_at(env.model(), wcs@, i as int, e);
                }
                return Result::Err(e);
            },
            Result::Ok(v) => {
                out.push(v);
            },
        }
        i = i + 1;
    }
    proof {
        lemma_wcs_err_none(env.model(), wcs@);
    }
    Result::Ok(out)
}

} // verus!
