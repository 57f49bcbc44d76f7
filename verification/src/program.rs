//! Lowering of a whole program: identity allocation, the type-kind
//! collection pass, and the item pass that produces the aggregate
//! `Program`.
//!
//! Identities are assigned in a single counter space, in a fixed order:
//! first one per top-level declaration in declaration order, then one
//! per associated-type name, iterating traits in declaration order and
//! names in declaration order within a trait. The spec functions here
//! state that allocation, the contents of every produced table, and the
//! first error a failing program produces.

use vstd::prelude::*;
use crate::ast;
use crate::ast::{Identifier, ParameterKind};
use crate::env::{Env, EnvModel, TypeKindModel, tk_model, tk_models};
use crate::error::LowerError;
use crate::ir;
use crate::ir::ItemId;
use crate::lower::{
    lower_where_clause_list, trait_ref_err, trait_ref_lowers_to, ty_err, ty_lowers_to, wcs_err,
    wcs_lower_to,
};
use crate::maps::{AssocNameMap, IdMap, NameMap};

verus! {

// ===== parameters of an item =====

/// The parameters bound while lowering an item's body: its declared
/// parameters in source order, then any synthetic ones — for a trait,
/// the reserved `Self` type parameter, always last.
pub open spec fn all_params(item: ast::Item) -> Seq<ParameterKind<Identifier>> {
    match item {
        ast::Item::StructDefn(d) => d.parameter_kinds@,
        ast::Item::TraitDefn(d) => d.parameter_kinds@ + seq![
            ParameterKind::Ty(Identifier::SelfName),
        ],
        ast::Item::Impl(d) => d.parameter_kinds@,
    }
}

// ===== identity allocation =====

/// How many associated-type names one item declares.
pub open spec fn item_assoc_len(item: ast::Item) -> int {
    match item {
        ast::Item::TraitDefn(d) => d.assoc_ty_names@.len() as int,
        _ => 0,
    }
}

/// The total count of associated-type names declared by the first `n`
/// items.
pub open spec fn assoc_count(items: Seq<ast::Item>, n: int) -> int
    decreases n,
{
    if n <= 0 {
        0
    } else {
        assoc_count(items, n - 1) + item_assoc_len(items[n - 1])
    }
}

pub open spec fn total_assoc(items: Seq<ast::Item>) -> int {
    assoc_count(items, items.len() as int)
}

pub proof fn lemma_assoc_count_mono(items: Seq<ast::Item>, i: int, j: int)
    requires
        0 <= i <= j,
    ensures
        assoc_count(items, i) <= assoc_count(items, j),
        assoc_count(items, i) >= 0,
    decreases j,
{
    if j > 0 {
        if i <= j - 1 {
            lemma_assoc_count_mono(items, i, j - 1);
        } else {
            lemma_assoc_count_mono(items, i - 1, j - 1);
        }
    }
}

// ===== the global tables, as allocation and collection build them =====

/// The name table after the first `n` items: a struct or trait
/// registers its name at its own index, a later definition of the same
/// name overriding an earlier one.
pub open spec fn tids_model(items: Seq<ast::Item>, n: int) -> Map<Identifier, ItemId>
    decreases n,
{
    if n <= 0 {
        Map::empty()
    } else {
        let m0 = tids_model(items, n - 1);
        match items[n - 1] {
            ast::Item::StructDefn(d) => m0.insert(d.name, ItemId { index: (n - 1) as usize }),
            ast::Item::TraitDefn(d) => m0.insert(d.name, ItemId { index: (n - 1) as usize }),
            ast::Item::Impl(_) => m0,
        }
    }
}

/// The kind table after the first `n` items; impls contribute none, and
/// a trait's entry excludes its synthetic `Self` parameter.
pub open spec fn tkinds_model(items: Seq<ast::Item>, n: int) -> Map<int, TypeKindModel>
    decreases n,
{
    if n <= 0 {
        Map::empty()
    } else {
        let m0 = tkinds_model(items, n - 1);
        match items[n - 1] {
            ast::Item::StructDefn(d) => m0.insert(
                n - 1,
                TypeKindModel {
                    sort: ir::TypeSort::Struct,
                    name: d.name,
                    parameter_kinds: d.parameter_kinds@,
                },
            ),
            ast::Item::TraitDefn(d) => m0.insert(
                n - 1,
                TypeKindModel {
                    sort: ir::TypeSort::Trait,
                    name: d.name,
                    parameter_kinds: d.parameter_kinds@,
                },
            ),
            ast::Item::Impl(_) => m0,
        }
    }
}

/// One trait's associated-type names added to the lookup table, the
/// `k`-th name receiving identity `base + k`.
pub open spec fn add_assoc_ids(
    m0: Map<(int, Identifier), ItemId>,
    t: int,
    names: Seq<Identifier>,
    base: int,
) -> Map<(int, Identifier), ItemId>
    decreases names.len(),
{
    if names.len() == 0 {
        m0
    } else {
        add_assoc_ids(m0, t, names.drop_last(), base).insert(
            (t, names.last()),
            ItemId { index: (base + names.len() - 1) as usize },
        )
    }
}

/// The associated-type lookup table after the first `n` items.
pub open spec fn atids_model(items: Seq<ast::Item>, n: int) -> Map<(int, Identifier), ItemId>
    decreases n,
{
    if n <= 0 {
        Map::empty()
    } else {
        let m0 = atids_model(items, n - 1);
        match items[n - 1] {
            ast::Item::TraitDefn(d) => add_assoc_ids(
                m0,
                n - 1,
                d.assoc_ty_names@,
                items.len() as int + assoc_count(items, n - 1),
            ),
            _ => m0,
        }
    }
}

/// The environment an item's body is lowered under: its own parameters,
/// and the completed global tables.
pub open spec fn item_env_model(items: Seq<ast::Item>, i: int) -> EnvModel {
    EnvModel {
        params: all_params(items[i]),
        type_ids: tids_model(items, items.len() as int),
        type_kinds: tkinds_model(items, items.len() as int),
        assoc_ty_ids: atids_model(items, items.len() as int),
    }
}

/// Machine limits on a program's shape: the identity counter and the
/// arity counts carried by errors must fit in a `usize`.
pub open spec fn items_wf(items: Seq<ast::Item>) -> bool {
    &&& items.len() + total_assoc(items) <= usize::MAX
    &&& forall|i: int|
        0 <= i < items.len() ==> match #[trigger] items[i] {
            ast::Item::StructDefn(d) => d.parameter_kinds@.len() < usize::MAX,
            ast::Item::TraitDefn(d) => d.parameter_kinds@.len() < usize::MAX,
            ast::Item::Impl(_) => true,
        }
}

// ===== per-item lowering =====

pub open spec fn assoc_val_err(m: EnvModel, av: ast::AssocTyValue) -> Option<LowerError> {
    ty_err(m, av.value)
}

/// The first error among an impl's associated-type values, in order.
pub open spec fn assoc_vals_err(m: EnvModel, avs: Seq<ast::AssocTyValue>) -> Option<LowerError>
    decreases avs.len(),
{
    if avs.len() == 0 {
        None
    } else {
        match assoc_val_err(m, avs[0]) {
            Some(e) => Some(e),
            None => assoc_vals_err(m, avs.skip(1)),
        }
    }
}

pub open spec fn assoc_val_lowers_to(m: EnvModel, av: ast::AssocTyValue, v: ir::AssocTyValue) -> bool {
    v.name == av.name && ty_lowers_to(m, av.value, v.value)
}

pub open spec fn assoc_vals_lower_to(
    m: EnvModel,
    avs: Seq<ast::AssocTyValue>,
    vs: Seq<ir::AssocTyValue>,
) -> bool {
    &&& vs.len() == avs.len()
    &&& forall|j: int| 0 <= j < avs.len() ==> assoc_val_lowers_to(m, avs[j], #[trigger] vs[j])
}

/// The first error lowering an impl meets: its target trait reference,
/// then its associated-type values, then its where-clauses.
pub open spec fn impl_err(m: EnvModel, d: ast::Impl) -> Option<LowerError> {
    match trait_ref_err(m, d.trait_ref) {
        Some(e) => Some(e),
        None => match assoc_vals_err(m, d.assoc_ty_values@) {
            Some(e) => Some(e),
            None => wcs_err(m, d.where_clauses@),
        },
    }
}

/// Relates an impl to its lowered data.
pub open spec fn impl_data_of(m: EnvModel, d: ast::Impl, v: ir::ImplData) -> bool {
    &&& trait_ref_lowers_to(m, d.trait_ref, v.trait_ref)
    &&& v.parameter_kinds@ == d.parameter_kinds@
    &&& assoc_vals_lower_to(m, d.assoc_ty_values@, v.assoc_ty_values@)
    &&& wcs_lower_to(m, d.where_clauses@, v.where_clauses@)
}

/// Relates a trait to its lowered data: the full parameter list with
/// `Self` last, and the lowered where-clauses.
pub open spec fn trait_data_of(m: EnvModel, d: ast::TraitDefn, v: ir::TraitData) -> bool {
    &&& v.parameter_kinds@ == d.parameter_kinds@ + seq![ParameterKind::Ty(Identifier::SelfName)]
    &&& wcs_lower_to(m, d.where_clauses@, v.where_clauses@)
}

/// The first error the item pass meets at item `i`. Struct bodies are
/// not lowered in this pass — their where-clauses are intentionally
/// dropped from the aggregate output — so a struct never fails here.
pub open spec fn item_err(items: Seq<ast::Item>, i: int) -> Option<LowerError> {
    let m = item_env_model(items, i);
    match items[i] {
        ast::Item::StructDefn(_) => None,
        ast::Item::TraitDefn(d) => wcs_err(m, d.where_clauses@),
        ast::Item::Impl(d) => impl_err(m, d),
    }
}

pub open spec fn program_err_from(items: Seq<ast::Item>, i: int) -> Option<LowerError>
    decreases items.len() - i,
{
    if i < 0 || i >= items.len() {
        None
    } else {
        match item_err(items, i) {
            Some(e) => Some(e),
            None => program_err_from(items, i + 1),
        }
    }
}

/// The first error lowering a whole program meets, in item order, or
/// `None` when the whole pass succeeds.
pub open spec fn program_err(items: Seq<ast::Item>) -> Option<LowerError> {
    program_err_from(items, 0)
}

// ===== the aggregate result =====

/// The parameters of the trait reference a trait applies to its own
/// parameters: parameter `j` read back as variable `j`, type or
/// lifetime according to its kind.
pub open spec fn self_ref_params(pks: Seq<ParameterKind<Identifier>>) -> Seq<ir::Parameter> {
    Seq::new(
        pks.len(),
        |j: int|
            match pks[j] {
                ParameterKind::Ty(_) => ir::Parameter::Ty(ir::Ty::Var(j as usize)),
                ParameterKind::Lifetime(_) => ir::Parameter::Lifetime(ir::Lifetime::Var(j as usize)),
            },
    )
}

/// The associated-type datum for the `k`-th associated-type name of the
/// trait at index `i`: the owning trait, the name, a copy of the
/// trait's full parameter list, and exactly one implicit where-clause —
/// the owning trait, applied to these same parameters, is implemented.
pub open spec fn assoc_data_of(items: Seq<ast::Item>, i: int, k: int, v: ir::AssociatedTyData) -> bool {
    match items[i] {
        ast::Item::TraitDefn(d) => {
            &&& v.trait_id == ItemId { index: i as usize }
            &&& v.name == d.assoc_ty_names@[k]
            &&& v.parameter_kinds@ == all_params(items[i])
            &&& v.where_clauses@.len() == 1
            &&& match v.where_clauses@[0] {
                ir::WhereClause::Implemented(tr) => {
                    &&& tr.trait_id == ItemId { index: i as usize }
                    &&& tr.parameters@ == self_ref_params(all_params(items[i]))
                },
                _ => false,
            }
        },
        _ => false,
    }
}

pub open spec fn trait_entry_ok(items: Seq<ast::Item>, td: Map<int, ir::TraitData>, i: int) -> bool {
    match items[i] {
        ast::Item::TraitDefn(d) => td.contains_key(i) && trait_data_of(
            item_env_model(items, i),
            d,
            td[i],
        ),
        _ => !td.contains_key(i),
    }
}

pub open spec fn impl_entry_ok(items: Seq<ast::Item>, im: Map<int, ir::ImplData>, i: int) -> bool {
    match items[i] {
        ast::Item::Impl(d) => im.contains_key(i) && impl_data_of(item_env_model(items, i), d, im[i]),
        _ => !im.contains_key(i),
    }
}

pub open spec fn assoc_entry_ok(
    items: Seq<ast::Item>,
    ad: Map<int, ir::AssociatedTyData>,
    i: int,
    k: int,
) -> bool {
    let id = items.len() as int + assoc_count(items, i) + k;
    ad.contains_key(id) && assoc_data_of(items, i, k, ad[id])
}

pub open spec fn assoc_entries_ok(
    items: Seq<ast::Item>,
    ad: Map<int, ir::AssociatedTyData>,
    i: int,
) -> bool {
    forall|k: int| 0 <= k < item_assoc_len(items[i]) ==> #[trigger] assoc_entry_ok(items, ad, i, k)
}

/// Everything a successful lowering promises of the produced program:
/// the exact global tables, one trait datum per trait, one impl datum
/// per impl, one associated-type datum per declared associated-type
/// name under its allocated identity, and nothing else.
pub open spec fn program_lowers_to(items: Seq<ast::Item>, prog: ir::Program) -> bool {
    let n = items.len() as int;
    &&& prog.type_ids@ == tids_model(items, n)
    &&& tk_models(prog.type_kinds@) == tkinds_model(items, n)
    &&& forall|i: int| 0 <= i < n ==> #[trigger] trait_entry_ok(items, prog.trait_data@, i)
    &&& forall|i: int| #[trigger] prog.trait_data@.contains_key(i) ==> 0 <= i < n
    &&& forall|i: int| 0 <= i < n ==> #[trigger] impl_entry_ok(items, prog.impl_data@, i)
    &&& forall|i: int| #[trigger] prog.impl_data@.contains_key(i) ==> 0 <= i < n
    &&& forall|i: int| 0 <= i < n ==> #[trigger] assoc_entries_ok(items, prog.associated_ty_data@, i)
    &&& forall|id: int|
        #[trigger] prog.associated_ty_data@.contains_key(id) ==> n <= id < n + total_assoc(items)
    &&& forall|id: int|
        n <= id < n + total_assoc(items) ==> #[trigger] prog.associated_ty_data@.contains_key(id)
}

// ===== executable helpers =====

/// Copies a parameter-kind list.
fn copy_pks(v: &Vec<ParameterKind<Identifier>>) -> (r: Vec<ParameterKind<Identifier>>)
    ensures
        r@ == v@,
{
    let mut r: Vec<ParameterKind<Identifier>> = Vec::new();
    let mut i: usize = 0;
    while i < v.len()
        invariant
            i <= v@.len(),
            r@ == v@.take(i as int),
        decreases v@.len() - i,
    {
        r.push(v[i]);
        proof {
            assert(v@.take(i as int).push(v@[i as int]) =~= v@.take(i as int + 1));
        }
        i = i + 1;
    }
    proof {
        assert(v@.take(v@.len() as int) =~= v@);
    }
    r
}

impl ast::Item {
    /// The parameters the item declares at the surface.
    pub fn declared_parameters(&self) -> (r: &Vec<ParameterKind<Identifier>>)
        ensures
            r@ == match *self {
                ast::Item::StructDefn(d) => d.parameter_kinds@,
                ast::Item::TraitDefn(d) => d.parameter_kinds@,
                ast::Item::Impl(d) => d.parameter_kinds@,
            },
    {
        match self {
            ast::Item::StructDefn(d) => &d.parameter_kinds,
            ast::Item::TraitDefn(d) => &d.parameter_kinds,
            ast::Item::Impl(d) => &d.parameter_kinds,
        }
    }

    /// The parameter the item binds beyond its declared ones: only a
    /// trait has one, its reserved `Self` type parameter.
    pub fn synthetic_parameters(&self) -> (r: Option<ParameterKind<Identifier>>)
        ensures
            r == match *self {
                ast::Item::TraitDefn(_) => Some(ParameterKind::Ty(Identifier::SelfName)),
                _ => None::<ParameterKind<Identifier>>,
            },
    {
        match self {
            ast::Item::TraitDefn(d) => d.synthetic_parameters(),
            ast::Item::StructDefn(_) => None,
            ast::Item::Impl(_) => None,
        }
    }

    /// The full parameter list an item's body is lowered under: the
    /// declared parameters first, then any synthetic ones, so that a
    /// trait used as a type keeps its declared indices.
    pub fn all_parameters(&self) -> (r: Vec<ParameterKind<Identifier>>)
        ensures
            r@ == all_params(*self),
    {
        let mut r = copy_pks(self.declared_parameters());
        match self.synthetic_parameters() {
            Some(pk) => {
                r.push(pk);
                proof {
                    assert(r@ =~= all_params(*self));
                }
            },
            None => {},
        }
        r
    }
}

impl ast::TraitDefn {
    pub fn declared_parameters(&self) -> (r: &Vec<ParameterKind<Identifier>>)
        ensures
            r@ == self.parameter_kinds@,
    {
        &self.parameter_kinds
    }

    pub fn synthetic_parameters(&self) -> (r: Option<ParameterKind<Identifier>>)
        ensures
            r == Some(ParameterKind::Ty(Identifier::SelfName)),
    {
        Some(ParameterKind::Ty(Identifier::SelfName))
    }

    /// The trait's full parameter list: declared parameters, then the
    /// reserved `Self` type parameter last.
    pub fn all_parameters(&self) -> (r: Vec<ParameterKind<Identifier>>)
        ensures
            r@ == self.parameter_kinds@ + seq![ParameterKind::Ty(Identifier::SelfName)],
    {
        let mut r = copy_pks(&self.parameter_kinds);
        r.push(ParameterKind::Ty(Identifier::SelfName));
        proof {
            assert(r@ =~= self.parameter_kinds@ + seq![
                ParameterKind::Ty(Identifier::SelfName),
            ]);
        }
        r
    }

    /// The trait's descriptor as a type constructor: for the purposes
    /// of the type, `Self` is excluded.
    pub fn lower_type_kind(&self) -> (r: ir::TypeKind)
        ensures
            tk_model(r) == (TypeKindModel {
                sort: ir::TypeSort::Trait,
                name: self.name,
                parameter_kinds: self.parameter_kinds@,
            }),
    {
        ir::TypeKind {
            sort: ir::TypeSort::Trait,
            name: self.name,
            parameter_kinds: copy_pks(&self.parameter_kinds),
        }
    }

    /// Lowers the trait's own data under its full environment: the
    /// parameter list with `Self` last, and the where-clauses.
    pub fn lower_trait(&self, env: &Env) -> (r: Result<ir::TraitData, LowerError>)
        requires
            env.model().wf(),
        ensures
            match r {
                Result::Ok(v) => wcs_err(env.model(), self.where_clauses@) is None
                    && trait_data_of(env.model(), *self, v),
                Result::Err(e) => wcs_err(env.model(), self.where_clauses@) == Some(e),
            },
    {
        let parameter_kinds = self.all_parameters();
        match lower_where_clause_list(&self.where_clauses, env) {
            Result::Err(e) => Result::Err(e),
            Result::Ok(where_clauses) => Result::Ok(
                ir::TraitData { parameter_kinds, where_clauses },
            ),
        }
    }
}

impl ast::StructDefn {
    /// The struct's descriptor as a type constructor.
    pub fn lower_type_kind(&self) -> (r: ir::TypeKind)
        ensures
            tk_model(r) == (TypeKindModel {
                sort: ir::TypeSort::Struct,
                name: self.name,
                parameter_kinds: self.parameter_kinds@,
            }),
    {
        ir::TypeKind {
            sort: ir::TypeSort::Struct,
            name: self.name,
            parameter_kinds: copy_pks(&self.parameter_kinds),
        }
    }
}

impl ast::AssocTyValue {
    /// Lowers one associated-type value binding: the name kept, the
    /// value lowered.
    pub fn lower(&self, env: &Env) -> (r: Result<ir::AssocTyValue, LowerError>)
        requires
            env.model().wf(),
        ensures
            match r {
                Result::Ok(v) => assoc_val_err(env.model(), *self) is None && assoc_val_lowers_to(
                    env.model(),
                    *self,
                    v,
                ),
                Result::Err(e) => assoc_val_err(env.model(), *self) == Some(e),
            },
    {
        match self.value.lower(env) {
            Result::Err(e) => Result::Err(e),
            Result::Ok(value) => Result::Ok(ir::AssocTyValue { name: self.name, value }),
        }
    }
}

proof fn lemma_assoc_vals_err_at(m: EnvModel, avs: Seq<ast::AssocTyValue>, i: int, e: LowerError)
    requires
        0 <= i < avs.len(),
        forall|j: int| 0 <= j < i ==> assoc_val_err(m, #[trigger] avs[j]) is None,
        assoc_val_err(m, avs[i]) == Some(e),
    ensures
        assoc_vals_err(m, avs) == Some(e),
    decreases i,
{
    if i == 0 {
    } else {
        assert(assoc_val_err(m, avs[0]) is None);
        assert forall|j: int| 0 <= j < i - 1 implies assoc_val_err(
            m,
            #[trigger] avs.skip(1)[j],
        ) is None by {
            assert(avs.skip(1)[j] == avs[j + 1]);
        }
        assert(avs.skip(1)[i - 1] == avs[i]);
        lemma_assoc_vals_err_at(m, avs.skip(1), i - 1, e);
    }
}

proof fn lemma_assoc_vals_err_none(m: EnvModel, avs: Seq<ast::AssocTyValue>)
    requires
        forall|j: int| 0 <= j < avs.len() ==> assoc_val_err(m, #[trigger] avs[j]) is None,
    ensures
        assoc_vals_err(m, avs) is None,
    decreases avs.len(),
{
    if avs.len() > 0 {
        assert forall|j: int| 0 <= j < avs.skip(1).len() implies assoc_val_err(
            m,
            #[trigger] avs.skip(1)[j],
        ) is None by {
            assert(avs.skip(1)[j] == avs[j + 1]);
        }
        lemma_assoc_vals_err_none(m, avs.skip(1));
    }
}

/// Lowers an impl's associated-type value bindings in order, stopping
/// at the first failing one.
fn lower_assoc_ty_value_list(avs: &Vec<ast::AssocTyValue>, env: &Env) -> (r: Result<
    Vec<ir::AssocTyValue>,
    LowerError,
>)
    requires
        env.model().wf(),
    ensures
        match r {
            Result::Ok(vs) => assoc_vals_err(env.model(), avs@) is None && assoc_vals_lower_to(
                env.model(),
                avs@,
                vs@,
            ),
            Result::Err(e) => assoc_vals_err(env.model(), avs@) == Some(e),
        },
{
    let mut out: Vec<ir::AssocTyValue> = Vec::new();
    let mut i: usize = 0;
    while i < avs.len()
        invariant
            env.model().wf(),
            i <= avs@.len(),
            out@.len() == i,
            forall|j: int|
                0 <= j < i ==> assoc_val_lowers_to(env.model(), avs@[j], #[trigger] out@[j]),
            forall|j: int| 0 <= j < i ==> assoc_val_err(env.model(), #[trigger] avs@[j]) is None,
        decreases avs@.len() - i,
    {
        match (&avs[i]).lower(env) {
            Result::Err(e) => {
                proof {
                    lemma_assoc_vals_err_at(env.model(), avs@, i as int, e);
                }
                return Result::Err(e);
            },
            Result::Ok(v) => {
                out.push(v);
            },
        }
        i = i + 1;
    }
    proof {
        lemma_assoc_vals_err_none(env.model(), avs@);
    }
    Result::Ok(out)
}

impl ast::Impl {
    /// Lowers an impl: its target trait reference, its own declared
    /// parameters, its associated-type value bindings, and its
    /// where-clauses, in that order.
    pub fn lower_impl(&self, env: &Env) -> (r: Result<ir::ImplData, LowerError>)
        requires
            env.model().wf(),
        ensures
            match r {
                Result::Ok(v) => impl_err(env.model(), *self) is None && impl_data_of(
                    env.model(),
                    *self,
                    v,
                ),
                Result::Err(e) => impl_err(env.model(), *self) == Some(e),
            },
    {
        match self.trait_ref.lower(env) {
            Result::Err(e) => Result::Err(e),
            Result::Ok(trait_ref) => {
                let parameter_kinds = copy_pks(&self.parameter_kinds);
                match lower_assoc_ty_value_list(&self.assoc_ty_values, env) {
                    Result::Err(e) => Result::Err(e),
                    Result::Ok(assoc_ty_values) => match lower_where_clause_list(
                        &self.where_clauses,
                        env,
                    ) {
                        Result::Err(e) => Result::Err(e),
                        Result::Ok(where_clauses) => Result::Ok(
                            ir::ImplData {
                                trait_ref,
                                parameter_kinds,
                                assoc_ty_values,
                                where_clauses,
                            },
                        ),
                    },
                }
            },
        }
    }
}

/// Builds the trait reference a trait applies to its own parameters:
/// parameter `j` becomes variable `j`, type or lifetime according to
/// its kind.
fn build_self_ref_params(pks: &Vec<ParameterKind<Identifier>>) -> (r: Vec<ir::Parameter>)
    ensures
        r@ == self_ref_params(pks@),
{
    let mut r: Vec<ir::Parameter> = Vec::new();
    let mut i: usize = 0;
    while i < pks.len()
        invariant
            i <= pks@.len(),
            r@ == self_ref_params(pks@).take(i as int),
        decreases pks@.len() - i,
    {
        let p = match pks[i] {
            ParameterKind::Ty(_) => ir::Parameter::Ty(ir::Ty::Var(i)),
            ParameterKind::Lifetime(_) => ir::Parameter::Lifetime(ir::Lifetime::Var(i)),
        };
        r.push(p);
        proof {
            assert(self_ref_params(pks@).take(i as int).push(self_ref_params(pks@)[i as int])
                =~= self_ref_params(pks@).take(i as int + 1));
        }
        i = i + 1;
    }
    proof {
        assert(self_ref_params(pks@).take(pks@.len() as int) =~= self_ref_params(pks@));
    }
    r
}

// ===== the completed tables are internally consistent =====

pub proof fn lemma_tables_wf(items: Seq<ast::Item>, n: int)
    requires
        0 <= n <= items.len(),
        items_wf(items),
    ensures
        forall|name: Identifier|
            tids_model(items, n).contains_key(name) ==> tkinds_model(items, n).contains_key(
                (#[trigger] tids_model(items, n)[name]).index as int,
            ),
        forall|i: int|
            #[trigger] tkinds_model(items, n).contains_key(i) ==> 0 <= i < n && tkinds_model(
                items,
                n,
            )[i].parameter_kinds.len() < usize::MAX,
    decreases n,
{
    if n > 0 {
        lemma_assoc_count_mono(items, 0, items.len() as int);
        assert(items.len() <= usize::MAX);
        lemma_tables_wf(items, n - 1);
        let tids0 = tids_model(items, n - 1);
        let tks0 = tkinds_model(items, n - 1);
        let tids = tids_model(items, n);
        let tks = tkinds_model(items, n);
        assert forall|name: Identifier| tids.contains_key(name) implies tks.contains_key(
            (#[trigger] tids[name]).index as int,
        ) by {
            match items[n - 1] {
                ast::Item::StructDefn(d) => {
                    assert(tids == tids0.insert(d.name, ItemId { index: (n - 1) as usize }));
                    assert(tks.contains_key(n - 1));
                    if name != d.name {
                        assert(tids0.contains_key(name) && tids[name] == tids0[name]);
                    }
                },
                ast::Item::TraitDefn(d) => {
                    assert(tids == tids0.insert(d.name, ItemId { index: (n - 1) as usize }));
                    assert(tks.contains_key(n - 1));
                    if name != d.name {
                        assert(tids0.contains_key(name) && tids[name] == tids0[name]);
                    }
                },
                ast::Item::Impl(_) => {
                    assert(tids0.contains_key(name) && tids[name] == tids0[name]);
                },
            }
        }
        assert forall|i: int| #[trigger] tks.contains_key(i) implies 0 <= i < n
            && tks[i].parameter_kinds.len() < usize::MAX by {
            match items[n - 1] {
                ast::Item::StructDefn(d) => {
                    assert(items[n - 1] is StructDefn);
                    if i != n - 1 {
                        assert(tks0.contains_key(i) && tks[i] == tks0[i]);
                    }
                },
                ast::Item::TraitDefn(d) => {
                    assert(items[n - 1] is TraitDefn);
                    if i != n - 1 {
                        assert(tks0.contains_key(i) && tks[i] == tks0[i]);
                    }
                },
                ast::Item::Impl(_) => {
                    assert(tks0.contains_key(i) && tks[i] == tks0[i]);
                },
            }
        }
    }
}

// ===== first-error decomposition over items =====

proof fn lemma_program_err_from_at(items: Seq<ast::Item>, j: int, i: int, e: LowerError)
    requires
        0 <= j <= i < items.len(),
        forall|jj: int| j <= jj < i ==> item_err(items, jj) is None,
        item_err(items, i) == Some(e),
    ensures
        program_err_from(items, j) == Some(e),
    decreases i - j,
{
    if j < i {
        lemma_program_err_from_at(items, j + 1, i, e);
    }
}

proof fn lemma_program_err_at(items: Seq<ast::Item>, i: int, e: LowerError)
    requires
        0 <= i < items.len(),
        forall|jj: int| 0 <= jj < i ==> item_err(items, jj) is None,
        item_err(items, i) == Some(e),
    ensures
        program_err(items) == Some(e),
{
    lemma_program_err_from_at(items, 0, i, e);
}

proof fn lemma_program_err_from_none(items: Seq<ast::Item>, j: int)
    requires
        0 <= j <= items.len(),
        forall|jj: int| j <= jj < items.len() ==> item_err(items, jj) is None,
    ensures
        program_err_from(items, j) is None,
    decreases items.len() - j,
{
    if j < items.len() {
        lemma_program_err_from_none(items, j + 1);
    }
}

// ===== the whole pass =====

impl ast::Program {
    /// Lowers a whole program: allocates identities, collects type
    /// kinds, then lowers every item's body, failing fast on the first
    /// error with no partial item recorded.
    #[verifier::rlimit(100)]
    pub fn lower(&self) -> (r: Result<ir::Program, LowerError>)
        requires
            items_wf(self.items@),
        ensures
            match r {
                Result::Ok(prog) => {
                    &&& program_err(self.items@) is None
                    &&& program_lowers_to(self.items@, prog)
                    &&& prog.wf()
                },
                Result::Err(e) => program_err(self.items@) == Some(e),
            },
    {
        let ghost items = self.items@;
        let n = self.items.len();

        // identity allocation: one id per item by position, then one id
        // per associated-type name, continuing the same counter
        let mut associated_ty_ids = AssocNameMap::new();
        let mut next: usize = n;
        let mut i: usize = 0;
        while i < n
            invariant
                items == self.items@,
                n == items.len(),
                items_wf(items),
                i <= n,
                next as int == n as int + assoc_count(items, i as int),
                associated_ty_ids@ == atids_model(items, i as int),
            decreases n - i,
        {
            match &self.items[i] {
                ast::Item::TraitDefn(d) => {
                    let ghost base = n as int + assoc_count(items, i as int);
                    let mut k: usize = 0;
                    while k < d.assoc_ty_names.len()
                        invariant
                            items == self.items@,
                            n == items.len(),
                            items_wf(items),
                            i < n,
                            items[i as int] == ast::Item::TraitDefn(*d),
                            base == n as int + assoc_count(items, i as int),
                            k <= d.assoc_ty_names@.len(),
                            next as int == base + k,
                            associated_ty_ids@ == add_assoc_ids(
                                atids_model(items, i as int),
                                i as int,
                                d.assoc_ty_names@.take(k as int),
                                base,
                            ),
                        decreases d.assoc_ty_names@.len() - k,
                    {
                        proof {
                            assert(assoc_count(items, i as int + 1) == assoc_count(items, i as int)
                                + item_assoc_len(items[i as int]));
                            lemma_assoc_count_mono(items, i as int + 1, items.len() as int);
                            lemma_assoc_count_mono(items, 0, i as int);
                        }
                        associated_ty_ids.insert(
                            ItemId { index: i },
                            d.assoc_ty_names[k],
                            ItemId { index: next },
                        );
                        proof {
                            assert(d.assoc_ty_names@.take(k as int + 1).drop_last()
                                =~= d.assoc_ty_names@.take(k as int));
                            assert(d.assoc_ty_names@.take(k as int + 1).last()
                                == d.assoc_ty_names@[k as int]);
                        }
                        next = next + 1;
                        k = k + 1;
                    }
                    proof {
                        assert(d.assoc_ty_names@.take(d.assoc_ty_names@.len() as int)
                            =~= d.assoc_ty_names@);
                        assert(assoc_count(items, i as int + 1) == assoc_count(items, i as int)
                            + item_assoc_len(items[i as int]));
                    }
                },
                _ => {
                    proof {
                        assert(assoc_count(items, i as int + 1) == assoc_count(items, i as int));
                    }
                },
            }
            i = i + 1;
        }

        // type-kind collection: name and descriptor for every struct
        // and trait, independent of bodies; impls contribute none
        let mut type_ids = NameMap::new();
        let mut type_kinds: IdMap<ir::TypeKind> = IdMap::new();
        let mut i: usize = 0;
        while i < n
            invariant
                items == self.items@,
                n == items.len(),
                items_wf(items),
                i <= n,
                type_ids@ == tids_model(items, i as int),
                tk_models(type_kinds@) == tkinds_model(items, i as int),
            decreases n - i,
        {
            match &self.items[i] {
                ast::Item::StructDefn(d) => {
                    let tk = d.lower_type_kind();
                    type_ids.insert(d.name, ItemId { index: i });
                    type_kinds.insert(ItemId { index: i }, tk);
                    proof {
                        assert(tk_models(type_kinds@) =~= tkinds_model(items, i as int + 1));
                    }
                },
                ast::Item::TraitDefn(d) => {
                    let tk = d.lower_type_kind();
                    type_ids.insert(d.name, ItemId { index: i });
                    type_kinds.insert(ItemId { index: i }, tk);
                    proof {
                        assert(tk_models(type_kinds@) =~= tkinds_model(items, i as int + 1));
                    }
                },
                ast::Item::Impl(_) => {},
            }
            i = i + 1;
        }

        // item pass: every body lowered under its own environment and
        // the completed tables
        let mut trait_data: IdMap<ir::TraitData> = IdMap::new();
        let mut impl_data: IdMap<ir::ImplData> = IdMap::new();
        let mut associated_ty_data: IdMap<ir::AssociatedTyData> = IdMap::new();
        let mut next2: usize = n;
        let mut i: usize = 0;
        while i < n
            invariant
                items == self.items@,
                n == items.len(),
                items_wf(items),
                i <= n,
                type_ids@ == tids_model(items, items.len() as int),
                tk_models(type_kinds@) == tkinds_model(items, items.len() as int),
                associated_ty_ids@ == atids_model(items, items.len() as int),
                next2 as int == n as int + assoc_count(items, i as int),
                forall|j: int| 0 <= j < i ==> item_err(items, j) is None,
                forall|j: int| 0 <= j < i ==> #[trigger] trait_entry_ok(items, trait_data@, j),
                forall|j: int| #[trigger] trait_data@.contains_key(j) ==> 0 <= j < i,
                forall|j: int| 0 <= j < i ==> #[trigger] impl_entry_ok(items, impl_data@, j),
                forall|j: int| #[trigger] impl_data@.contains_key(j) ==> 0 <= j < i,
                forall|j: int|
                    0 <= j < i ==> #[trigger] assoc_entries_ok(items, associated_ty_data@, j),
                forall|id: int|
                    #[trigger] associated_ty_data@.contains_key(id) ==> n <= id < next2,
                forall|id: int|
                    n <= id < next2 ==> #[trigger] associated_ty_data@.contains_key(id),
            decreases n - i,
        {
            let pm = (&self.items[i]).all_parameters();
            let env = Env {
                type_ids: &type_ids,
                type_kinds: &type_kinds,
                associated_ty_ids: &associated_ty_ids,
                parameter_map: pm,
            };
            proof {
                lemma_tables_wf(items, items.len() as int);
                assert(env.model() == item_env_model(items, i as int));
                assert(env.model().wf());
            }
            match &self.items[i] {
                ast::Item::StructDefn(_d) => {
                    // struct where-clauses are dropped by design: the
                    // aggregate output records nothing for a struct
                    // beyond its type kind
                    proof {
                        assert(assoc_count(items, i as int + 1) == assoc_count(items, i as int));
                        assert(trait_entry_ok(items, trait_data@, i as int));
                        assert(impl_entry_ok(items, impl_data@, i as int));
                        assert(assoc_entries_ok(items, associated_ty_data@, i as int));
                        assert(item_err(items, i as int) is None);
                    }
                },
                ast::Item::TraitDefn(d) => {
                    match d.lower_trait(&env) {
                        Result::Err(e) => {
                            proof {
                                lemma_program_err_at(items, i as int, e);
                            }
                            return Result::Err(e);
                        },
                        Result::Ok(td) => {
                            let ghost pre_td = trait_data@;
                            trait_data.insert(ItemId { index: i }, td);
                            proof {
                                assert forall|j: int| 0 <= j < i implies #[trigger] trait_entry_ok(
                                    items,
                                    trait_data@,
                                    j,
                                ) by {
                                    assert(trait_entry_ok(items, pre_td, j));
                                }
                            }
                            let ghost base2 = n as int + assoc_count(items, i as int);
                            let mut k: usize = 0;
                            while k < d.assoc_ty_names.len()
                                invariant
                                    items == self.items@,
                                    n == items.len(),
                                    items_wf(items),
                                    i < n,
                                    items[i as int] == ast::Item::TraitDefn(*d),
                                    env.parameter_map@ == all_params(items[i as int]),
                                    base2 == n as int + assoc_count(items, i as int),
                                    k <= d.assoc_ty_names@.len(),
                                    next2 as int == base2 + k,
                                    forall|j: int|
                                        0 <= j < i ==> #[trigger] assoc_entries_ok(
                                            items,
                                            associated_ty_data@,
                                            j,
                                        ),
                                    forall|kk: int|
                                        0 <= kk < k ==> #[trigger] assoc_entry_ok(
                                            items,
                                            associated_ty_data@,
                                            i as int,
                                            kk,
                                        ),
                                    forall|id: int|
                                        #[trigger] associated_ty_data@.contains_key(id) ==> n <= id
                                            < next2,
                                    forall|id: int|
                                        n <= id < next2 ==> #[trigger] associated_ty_data@.contains_key(
                                            id,
                                        ),
                                decreases d.assoc_ty_names@.len() - k,
                            {
                                proof {
                                    assert(assoc_count(items, i as int + 1) == assoc_count(
                                        items,
                                        i as int,
                                    ) + item_assoc_len(items[i as int]));
                                    lemma_assoc_count_mono(items, i as int + 1, items.len() as int);
                                    lemma_assoc_count_mono(items, 0, i as int);
                                }
                                let ap = build_self_ref_params(&env.parameter_map);
                                let mut implicit: Vec<ir::WhereClause> = Vec::new();
                                implicit.push(
                                    ir::WhereClause::Implemented(
                                        ir::TraitRef {
                                            trait_id: ItemId { index: i },
                                            parameters: ap,
                                        },
                                    ),
                                );
                                let ad = ir::AssociatedTyData {
                                    trait_id: ItemId { index: i },
                                    name: d.assoc_ty_names[k],
                                    parameter_kinds: copy_pks(&env.parameter_map),
                                    where_clauses: implicit,
                                };
                                let ghost pre = associated_ty_data@;
                                associated_ty_data.insert(ItemId { index: next2 }, ad);
                                proof {
                                    assert forall|j2: int| 0 <= j2 < i implies #[trigger] assoc_entries_ok(
                                        items,
                                        associated_ty_data@,
                                        j2,
                                    ) by {
                                        assert(assoc_entries_ok(items, pre, j2));
                                        assert forall|kk: int|
                                            0 <= kk < item_assoc_len(items[j2]) implies #[trigger] assoc_entry_ok(
                                            items,
                                            associated_ty_data@,
                                            j2,
                                            kk,
                                        ) by {
                                            assert(assoc_entry_ok(items, pre, j2, kk));
                                            assert(assoc_count(items, j2 + 1) == assoc_count(
                                                items,
                                                j2,
                                            ) + item_assoc_len(items[j2]));
                                            lemma_assoc_count_mono(items, j2 + 1, i as int);
                                        }
                                    }
                                    assert forall|kk: int| 0 <= kk < k implies #[trigger] assoc_entry_ok(
                                        items,
                                        associated_ty_data@,
                                        i as int,
                                        kk,
                                    ) by {
                                        assert(assoc_entry_ok(items, pre, i as int, kk));
                                    }
                                    assert(ad.parameter_kinds@ == all_params(items[i as int]));
                                    assert(ad.where_clauses@.len() == 1);
                                    assert(assoc_entry_ok(
                                        items,
                                        associated_ty_data@,
                                        i as int,
                                        k as int,
                                    ));
                                }
                                next2 = next2 + 1;
                                k = k + 1;
                            }
                            proof {
                                assert(assoc_count(items, i as int + 1) == assoc_count(
                                    items,
                                    i as int,
                                ) + item_assoc_len(items[i as int]));
                                assert(assoc_entries_ok(items, associated_ty_data@, i as int));
                                assert(trait_entry_ok(items, trait_data@, i as int));
                                assert(impl_entry_ok(items, impl_data@, i as int));
                                assert(item_err(items, i as int) is None);
                            }
                        },
                    }
                },
                ast::Item::Impl(d) => {
                    match d.lower_impl(&env) {
                        Result::Err(e) => {
                            proof {
                                lemma_program_err_at(items, i as int, e);
                            }
                            return Result::Err(e);
                        },
                        Result::Ok(v) => {
                            let ghost pre_im = impl_data@;
                            impl_data.insert(ItemId { index: i }, v);
                            proof {
                                assert forall|j: int| 0 <= j < i implies #[trigger] impl_entry_ok(
                                    items,
                                    impl_data@,
                                    j,
                                ) by {
                                    assert(impl_entry_ok(items, pre_im, j));
                                }
                                assert(assoc_count(items, i as int + 1) == assoc_count(
                                    items,
                                    i as int,
                                ));
                                assert(trait_entry_ok(items, trait_data@, i as int));
                                assert(impl_entry_ok(items, impl_data@, i as int));
                                assert(assoc_entries_ok(items, associated_ty_data@, i as int));
                                assert(item_err(items, i as int) is None);
                            }
                        },
                    }
                },
            }
            i = i + 1;
        }
        proof {
            lemma_program_err_from_none(items, 0);
        }
        let prog = ir::Program {
            type_ids,
            type_kinds,
            trait_data,
            impl_data,
            associated_ty_data,
        };
        proof {
            lemma_tables_wf(items, items.len() as int);
            assert(program_lowers_to(items, prog));
            assert(prog.wf());
        }
        Result::Ok(prog)
    }
}

} // verus!
