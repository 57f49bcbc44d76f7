//! Lowering of standalone logical goals against a finished program.
//! Quantified goals are peeled one parameter at a time: each surface
//! quantifier over a list becomes a right-nested chain of
//! single-parameter quantifier nodes, outermost first, and an empty list
//! adds no node at all.

use vstd::prelude::*;
use crate::ast;
use crate::ast::{Identifier, ParameterKind};
use crate::env::{Env, EnvModel};
use crate::error::LowerError;
use crate::ir;
use crate::ir::ItemId;
use crate::lower::{ty_err, ty_lowers_to, wc_err, projection_lowers_to, trait_ref_lowers_to};
use crate::maps::AssocNameMap;

verus! {

/// A binder with its name erased, as a lowered quantifier node carries it.
pub open spec fn pk_erase(pk: ParameterKind<Identifier>) -> ParameterKind<()> {
    match pk {
        ParameterKind::Ty(_) => ParameterKind::Ty(()),
        ParameterKind::Lifetime(_) => ParameterKind::Lifetime(()),
    }
}

/// Relates a where-clause to the atomic goal leaf it becomes.
pub open spec fn wc_goal_lowers_to(m: EnvModel, wc: ast::WhereClause, v: ir::WhereClauseGoal) -> bool {
    match wc {
        ast::WhereClause::Implemented { trait_ref } => match v {
            ir::WhereClauseGoal::Implemented(tr) => trait_ref_lowers_to(m, trait_ref, tr),
            _ => false,
        },
        ast::WhereClause::ProjectionEq { projection, ty } => match v {
            ir::WhereClauseGoal::Normalize(n) => projection_lowers_to(m, projection, n.projection)
                && ty_lowers_to(m, ty, n.ty),
            _ => false,
        },
    }
}

/// The first error lowering a goal meets, or `None` when it succeeds.
pub open spec fn goal_err(m: EnvModel, g: ast::Goal) -> Option<LowerError>
    decreases g, 0int,
{
    match g {
        ast::Goal::ForAll(pks, inner) => goal_quant_err(m, pks@, *inner),
        ast::Goal::Exists(pks, inner) => goal_quant_err(m, pks@, *inner),
        ast::Goal::Implies(wc, inner) => match wc_err(m, wc) {
            Some(e) => Some(e),
            None => goal_err(m, *inner),
        },
        ast::Goal::And(g1, g2) => match goal_err(m, *g1) {
            Some(e) => Some(e),
            None => goal_err(m, *g2),
        },
        ast::Goal::Leaf(wc) => wc_err(m, wc),
        ast::Goal::WellFormed(t) => ty_err(m, t),
    }
}

/// The first error lowering a quantified goal meets after introducing
/// the leading binders one at a time.
pub open spec fn goal_quant_err(
    m: EnvModel,
    pks: Seq<ParameterKind<Identifier>>,
    g: ast::Goal,
) -> Option<LowerError>
    decreases g, pks.len() + 1,
{
    if pks.len() == 0 {
        goal_err(m, g)
    } else {
        goal_quant_err(m.with_params(seq![pks[0]] + m.params), pks.skip(1), g)
    }
}

/// Relates a surface goal to its lowered form; deterministic, and
/// meaningful when `goal_err` is `None`.
pub open spec fn goal_lowers_to(m: EnvModel, g: ast::Goal, v: ir::Goal) -> bool
    decreases g, 0int,
{
    match g {
        ast::Goal::ForAll(pks, inner) => goal_quant_lowers_to(
            m,
            ir::QuantifierKind::ForAll,
            pks@,
            *inner,
            v,
        ),
        ast::Goal::Exists(pks, inner) => goal_quant_lowers_to(
            m,
            ir::QuantifierKind::Exists,
            pks@,
            *inner,
            v,
        ),
        ast::Goal::Implies(wc, inner) => match v {
            ir::Goal::Implies(vwc, vg) => crate::lower::wc_lowers_to(m, wc, vwc)
                && goal_lowers_to(m, *inner, *vg),
            _ => false,
        },
        ast::Goal::And(g1, g2) => match v {
            ir::Goal::And(v1, v2) => goal_lowers_to(m, *g1, *v1) && goal_lowers_to(m, *g2, *v2),
            _ => false,
        },
        ast::Goal::Leaf(wc) => match v {
            ir::Goal::Leaf(vwc) => wc_goal_lowers_to(m, wc, vwc),
            _ => false,
        },
        ast::Goal::WellFormed(t) => match v {
            ir::Goal::Leaf(vwc) => match vwc {
                ir::WhereClauseGoal::WellFormed(vt) => ty_lowers_to(m, t, vt),
                _ => false,
            },
            _ => false,
        },
    }
}

/// Relates a quantified goal to the right-nested chain of
/// single-parameter quantifier nodes it becomes: one node per binder in
/// declared order, outermost first, and none for an empty binder list.
pub open spec fn goal_quant_lowers_to(
    m: EnvModel,
    qk: ir::QuantifierKind,
    pks: Seq<ParameterKind<Identifier>>,
    g: ast::Goal,
    v: ir::Goal,
) -> bool
    decreases g, pks.len() + 1,
{
    if pks.len() == 0 {
        goal_lowers_to(m, g, v)
    } else {
        match v {
            ir::Goal::Quantified(vqk, vpk, vsub) => {
                &&& vqk == qk
                &&& vpk == pk_erase(pks[0])
                &&& goal_quant_lowers_to(
                    m.with_params(seq![pks[0]] + m.params),
                    qk,
                    pks.skip(1),
                    g,
                    *vsub,
                )
            },
            _ => false,
        }
    }
}

impl ast::Goal {
    /// Lowers a goal under an environment: quantifiers peel their
    /// binders, implications and conjunctions lower both sides under the
    /// same environment, leaves become atomic constraints, and
    /// well-formedness wraps the lowered type.
    pub fn lower(&self, env: &Env) -> (r: Result<Box<ir::Goal>, LowerError>)
        requires
            env.model().wf(),
        ensures
            match r {
                Result::Ok(v) => goal_err(env.model(), *self) is None && goal_lowers_to(
                    env.model(),
                    *self,
                    *v,
                ),
                Result::Err(e) => goal_err(env.model(), *self) == Some(e),
            },
        decreases *self, 0int,
    {
        match self {
            ast::Goal::ForAll(ids, g) => {
                proof {
                    assert(ids@.skip(0) =~= ids@);
                }
                g.lower_quantified(env, ir::QuantifierKind::ForAll, ids, 0)
            },
            ast::Goal::Exists(ids, g) => {
                proof {
                    assert(ids@.skip(0) =~= ids@);
                }
                g.lower_quantified(env, ir::QuantifierKind::Exists, ids, 0)
            },
            ast::Goal::Implies(wc, g) => match wc.lower(env) {
                Result::Err(e) => Result::Err(e),
                Result::Ok(vwc) => match g.lower(env) {
                    Result::Err(e) => Result::Err(e),
                    Result::Ok(vg) => Result::Ok(Box::new(ir::Goal::Implies(vwc, vg))),
                },
            },
            ast::Goal::And(g1, g2) => match g1.lower(env) {
                Result::Err(e) => Result::Err(e),
                Result::Ok(v1) => match g2.lower(env) {
                    Result::Err(e) => Result::Err(e),
                    Result::Ok(v2) => Result::Ok(Box::new(ir::Goal::And(v1, v2))),
                },
            },
            ast::Goal::Leaf(wc) => match wc.lower(env) {
                Result::Err(e) => Result::Err(e),
                Result::Ok(vwc) => Result::Ok(Box::new(ir::Goal::Leaf(vwc.cast()))),
            },
            ast::Goal::WellFormed(t) => match t.lower(env) {
                Result::Err(e) => Result::Err(e),
                Result::Ok(vt) => Result::Ok(
                    Box::new(ir::Goal::Leaf(ir::WhereClauseGoal::WellFormed(vt))),
                ),
            },
        }
    }

    /// Peels the binders of one surface quantifier from position
    /// `start` on: introduces one binder, lowers the rest, and wraps the
    /// result in a single-parameter quantifier node.
    pub fn lower_quantified(
        &self,
        env: &Env,
        quantifier_kind: ir::QuantifierKind,
        parameter_kinds: &Vec<ParameterKind<Identifier>>,
        start: usize,
    ) -> (r: Result<Box<ir::Goal>, LowerError>)
        requires
            env.model().wf(),
            start <= parameter_kinds@.len(),
        ensures
            match r {
                Result::Ok(v) => goal_quant_err(
                    env.model(),
                    parameter_kinds@.skip(start as int),
                    *self,
                ) is None && goal_quant_lowers_to(
                    env.model(),
                    quantifier_kind,
                    parameter_kinds@.skip(start as int),
                    *self,
                    *v,
                ),
                Result::Err(e) => goal_quant_err(
                    env.model(),
                    parameter_kinds@.skip(start as int),
                    *self,
                ) == Some(e),
            },
        decreases *self, parameter_kinds@.len() - start + 1,
    {
        if start >= parameter_kinds.len() {
            proof {
                assert(parameter_kinds@.skip(start as int).len() == 0);
            }
            return self.lower(env);
        }
        let pk = parameter_kinds[start];
        let mut binders: Vec<ParameterKind<Identifier>> = Vec::new();
        binders.push(pk);
        let quantified_env = env.introduce(&binders);
        proof {
            assert(binders@ =~= seq![parameter_kinds@.skip(start as int)[0]]);
            assert(parameter_kinds@.skip(start as int).skip(1) =~= parameter_kinds@.skip(
                start as int + 1,
            ));
        }
        match self.lower_quantified(&quantified_env, quantifier_kind, parameter_kinds, start + 1) {
            Result::Err(e) => Result::Err(e),
            Result::Ok(subgoal) => {
                let parameter_kind = match pk {
                    ParameterKind::Ty(_) => ParameterKind::Ty(()),
                    ParameterKind::Lifetime(_) => ParameterKind::Lifetime(()),
                };
                Result::Ok(
                    Box::new(ir::Goal::Quantified(quantifier_kind, parameter_kind, subgoal)),
                )
            },
        }
    }
}

/// The associated-type lookup table rebuilt by inverting a program's
/// associated-type data: owning trait and name lead to the associated
/// type's identity.
pub open spec fn invert_assoc(s: Seq<(ItemId, ir::AssociatedTyData)>) -> Map<
    (int, Identifier),
    ItemId,
>
    decreases s.len(),
{
    if s.len() == 0 {
        Map::empty()
    } else {
        invert_assoc(s.drop_last()).insert(
            (s.last().1.trait_id.index as int, s.last().1.name),
            s.last().0,
        )
    }
}

impl ir::Program {
    /// The environment a standalone goal is lowered under: no bound
    /// parameters, the program's global tables, and the associated-type
    /// table rebuilt from the program's associated-type data.
    pub open spec fn goal_model(self) -> EnvModel {
        EnvModel {
            params: Seq::empty(),
            type_ids: self.type_ids@,
            type_kinds: crate::env::tk_models(self.type_kinds@),
            assoc_ty_ids: invert_assoc(self.associated_ty_data.entries@),
        }
    }

    /// Internal consistency of a finished program, as lowering
    /// establishes it.
    pub open spec fn wf(self) -> bool {
        self.goal_model().wf()
    }

    /// Lowers a standalone goal against this finished program.
    pub fn lower_goal(&self, goal: &ast::Goal) -> (r: Result<Box<ir::Goal>, LowerError>)
        requires
            self.wf(),
        ensures
            match r {
                Result::Ok(v) => goal_err(self.goal_model(), *goal) is None && goal_lowers_to(
                    self.goal_model(),
                    *goal,
                    *v,
                ),
                Result::Err(e) => goal_err(self.goal_model(), *goal) == Some(e),
            },
    {
        let mut associated_ty_ids = AssocNameMap::new();
        let mut i: usize = 0;
        while i < self.associated_ty_data.entries.len()
            invariant
                i <= self.associated_ty_data.entries@.len(),
                associated_ty_ids@ == invert_assoc(self.associated_ty_data.entries@.take(i as int)),
            decreases self.associated_ty_data.entries@.len() - i,
        {
            let id = self.associated_ty_data.entries[i].0;
            let trait_id = self.associated_ty_data.entries[i].1.trait_id;
            let name = self.associated_ty_data.entries[i].1.name;
            associated_ty_ids.insert(trait_id, name, id);
            proof {
                assert(self.associated_ty_data.entries@.take(i as int + 1).drop_last()
                    =~= self.associated_ty_data.entries@.take(i as int));
            }
            i = i + 1;
        }
        proof {
            assert(self.associated_ty_data.entries@.take(
                self.associated_ty_data.entries@.len() as int,
            ) =~= self.associated_ty_data.entries@);
        }
        let env = Env {
            type_ids: &self.type_ids,
            type_kinds: &self.type_kinds,
            associated_ty_ids: &associated_ty_ids,
            parameter_map: Vec::new(),
        };
        proof {
            assert(env.model().params =~= self.goal_model().params);
        }
        goal.lower(&env)
    }
}

} // verus!
