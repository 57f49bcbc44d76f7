//! The library's general laws, stated over the spec functions its
//! contracts use and proved once and for all.

use vstd::prelude::*;
use vstd::set_lib::{lemma_int_range, lemma_set_subset_finite, set_int_range};
use crate::ast;
use crate::ast::{Identifier, ParameterKind};
use crate::env::{lookup_spec, param_index, EnvModel, NameLookup};
use crate::error::LowerError;
use crate::goal::{goal_lowers_to, goal_quant_lowers_to, pk_erase};
use crate::ir;
use crate::ir::ItemId;
use crate::lower::{params_err, ty_err};
use crate::program::{
    all_params, assoc_count, assoc_data_of, assoc_entries_ok, assoc_entry_ok, impl_entry_ok,
    item_assoc_len, lemma_assoc_count_mono, program_lowers_to, self_ref_params, tkinds_model,
    total_assoc, trait_entry_ok,
};

verus! {

proof fn lemma_len_disjoint_union<A>(s1: Set<A>, s2: Set<A>)
    requires
        s1.finite(),
        s2.finite(),
        s1.disjoint(s2),
    ensures
        s1.union(s2).len() == s1.len() + s2.len(),
        s1.union(s2).finite(),
    decreases s1.len(),
{
    if s1.is_empty() {
        assert(s1.union(s2) =~= s2);
        assert(s1.len() == 0);
    } else {
        let a = s1.choose();
        assert(s1.contains(a));
        assert(s1.union(s2).remove(a) =~= s1.remove(a).union(s2));
        lemma_len_disjoint_union(s1.remove(a), s2);
        assert(s1.union(s2).contains(a));
        assert(s1.union(s2) =~= s1.remove(a).union(s2).insert(a));
    }
}

proof fn lemma_tkinds_model_dom(items: Seq<ast::Item>, n: int)
    requires
        0 <= n <= items.len(),
    ensures
        forall|i: int|
            #[trigger] tkinds_model(items, n).contains_key(i) <==> (0 <= i < n && !(items[i]
                is Impl)),
    decreases n,
{
    if n > 0 {
        lemma_tkinds_model_dom(items, n - 1);
        assert forall|i: int|
            #[trigger] tkinds_model(items, n).contains_key(i) <==> (0 <= i < n && !(items[i]
                is Impl)) by {
            match items[n - 1] {
                ast::Item::StructDefn(_) => {
                    assert(tkinds_model(items, n).contains_key(n - 1));
                    if i != n - 1 {
                        assert(tkinds_model(items, n).contains_key(i) == tkinds_model(
                            items,
                            n - 1,
                        ).contains_key(i));
                    }
                },
                ast::Item::TraitDefn(_) => {
                    assert(tkinds_model(items, n).contains_key(n - 1));
                    if i != n - 1 {
                        assert(tkinds_model(items, n).contains_key(i) == tkinds_model(
                            items,
                            n - 1,
                        ).contains_key(i));
                    }
                },
                ast::Item::Impl(_) => {
                    assert(tkinds_model(items, n) == tkinds_model(items, n - 1));
                },
            }
        }
    }
}

/// Uniqueness of identities: in a lowered program the identities of
/// type kinds (structs and traits), impls, and associated-type
/// declarations are pairwise disjoint, and together they number exactly
/// the top-level item count plus the total count of associated-type
/// declarations across all traits.
pub proof fn lemma_item_ids_unique(items: Seq<ast::Item>, prog: ir::Program)
    requires
        program_lowers_to(items, prog),
    ensures
        prog.type_kinds@.dom().disjoint(prog.impl_data@.dom()),
        prog.type_kinds@.dom().disjoint(prog.associated_ty_data@.dom()),
        prog.impl_data@.dom().disjoint(prog.associated_ty_data@.dom()),
        prog.trait_data@.dom().subset_of(prog.type_kinds@.dom()),
        prog.type_kinds@.dom().union(prog.impl_data@.dom()).union(
            prog.associated_ty_data@.dom(),
        ).len() == items.len() + total_assoc(items),
{
    let n = items.len() as int;
    lemma_assoc_count_mono(items, 0, n);
    lemma_tkinds_model_dom(items, n);
    let tset = prog.type_kinds@.dom();
    let iset = prog.impl_data@.dom();
    let aset = prog.associated_ty_data@.dom();
    assert forall|i: int| #[trigger] tset.contains(i) implies 0 <= i < n && !(items[i] is Impl) by {
        assert(crate::env::tk_models(prog.type_kinds@).contains_key(i));
        assert(tkinds_model(items, n).contains_key(i));
    }
    assert forall|i: int| 0 <= i < n && !(items[i] is Impl) implies #[trigger] tset.contains(i) by {
        assert(tkinds_model(items, n).contains_key(i));
        assert(crate::env::tk_models(prog.type_kinds@).contains_key(i));
    }
    assert forall|i: int| #[trigger] iset.contains(i) implies 0 <= i < n && items[i] is Impl by {
        assert(impl_entry_ok(items, prog.impl_data@, i));
    }
    assert forall|i: int| 0 <= i < n && items[i] is Impl implies #[trigger] iset.contains(i) by {
        assert(impl_entry_ok(items, prog.impl_data@, i));
    }
    assert forall|i: int| #[trigger] prog.trait_data@.dom().contains(i) implies tset.contains(
        i,
    ) by {
        assert(trait_entry_ok(items, prog.trait_data@, i));
    }
    assert(tset.union(iset) =~= set_int_range(0, n));
    assert(aset =~= set_int_range(n, n + total_assoc(items)));
    lemma_int_range(0, n);
    lemma_int_range(n, n + total_assoc(items));
    lemma_set_subset_finite(set_int_range(0, n), tset);
    lemma_set_subset_finite(set_int_range(0, n), iset);
    lemma_len_disjoint_union(tset.union(iset), aset);
}

/// Self-ordering: every lowered trait's parameter list ends with the
/// synthetic `Self` type parameter, however many declared parameters or
/// lifetimes precede it.
pub proof fn lemma_trait_self_last(items: Seq<ast::Item>, prog: ir::Program, i: int)
    requires
        program_lowers_to(items, prog),
        0 <= i < items.len(),
        items[i] is TraitDefn,
    ensures
        prog.trait_data@.contains_key(i),
        prog.trait_data@[i].parameter_kinds@.len() >= 1,
        prog.trait_data@[i].parameter_kinds@.last() == ParameterKind::Ty(Identifier::SelfName),
{
    assert(trait_entry_ok(items, prog.trait_data@, i));
}

/// Shift correctness, existing parameters: a parameter found at index
/// `i` is found at index `i + n` after `n` fresh binders are
/// introduced, provided none of the new binders shadows it.
pub proof fn lemma_introduce_shift(
    binders: Seq<ParameterKind<Identifier>>,
    old_params: Seq<ParameterKind<Identifier>>,
    p: ParameterKind<Identifier>,
)
    requires
        !binders.contains(p),
        param_index(old_params, p) >= 0,
    ensures
        param_index(binders + old_params, p) == binders.len() + param_index(old_params, p),
{
    crate::env::lemma_param_index_props(old_params, p);
    let i = param_index(old_params, p);
    let cat = binders + old_params;
    assert(cat[binders.len() + i] == old_params[i]);
    assert forall|j: int| 0 <= j < binders.len() + i implies cat[j] != p by {
        if j < binders.len() {
            assert(cat[j] == binders[j]);
            if binders[j] == p {
                assert(binders.contains(p));
            }
        } else {
            assert(cat[j] == old_params[j - binders.len()]);
        }
    }
    crate::env::lemma_param_index_is_first_match(cat, p, binders.len() + i);
}

/// Shift correctness, new binders: after introducing binders
/// `[k1, ..., kn]`, the binder `kj` is found at index `j - 1`, provided
/// no earlier new binder shadows it.
pub proof fn lemma_introduce_new_binder(
    binders: Seq<ParameterKind<Identifier>>,
    old_params: Seq<ParameterKind<Identifier>>,
    j: int,
)
    requires
        0 <= j < binders.len(),
        forall|k: int| 0 <= k < j ==> binders[k] != binders[j],
    ensures
        param_index(binders + old_params, binders[j]) == j,
{
    let cat = binders + old_params;
    assert(cat[j] == binders[j]);
    assert forall|k: int| 0 <= k < j implies cat[k] != binders[j] by {
        assert(cat[k] == binders[k]);
    }
    crate::env::lemma_param_index_is_first_match(cat, binders[j], j);
}

/// Round-trip arity: a named constructor applied to exactly its
/// declared parameter count never produces an arity mismatch — lowering
/// then turns on the arguments alone — while any other count always
/// produces one, carrying the declared count as expected and the
/// supplied count as actual.
pub proof fn lemma_apply_arity(m: EnvModel, t: ast::Ty)
    requires
        t is Apply,
    ensures
        match t {
            ast::Ty::Apply { name, args } => match lookup_spec(m, name) {
                Result::Ok(NameLookup::Type(id)) => {
                    let k = m.type_kinds[id.index as int];
                    &&& (args@.len() == k.parameter_kinds.len() ==> ty_err(m, t) == params_err(
                        m,
                        args@,
                    ))
                    &&& (args@.len() != k.parameter_kinds.len() ==> ty_err(m, t) == Some(
                        LowerError::ArityMismatch {
                            name,
                            expected: k.parameter_kinds.len() as usize,
                            actual: args@.len() as usize,
                        },
                    ))
                },
                _ => true,
            },
            _ => true,
        },
{
}

/// Round-trip arity for trait references: a trait applied to exactly
/// its full parameter count — declared parameters plus the self type —
/// never produces an arity mismatch, while any other count always
/// does, carrying that full count as expected and the supplied count
/// as actual.
pub proof fn lemma_trait_ref_arity(m: EnvModel, tr: ast::TraitRef)
    ensures
        match lookup_spec(m, tr.trait_name) {
            Result::Ok(NameLookup::Type(id)) => {
                let k = m.type_kinds[id.index as int];
                k.sort == ir::TypeSort::Trait ==> {
                    &&& (tr.args@.len() == k.parameter_kinds.len() + 1
                        ==> crate::lower::trait_ref_err(m, tr) == params_err(m, tr.args@))
                    &&& (tr.args@.len() != k.parameter_kinds.len() + 1
                        ==> crate::lower::trait_ref_err(m, tr) == Some(
                        LowerError::ArityMismatch {
                            name: tr.trait_name,
                            expected: (k.parameter_kinds.len() + 1) as usize,
                            actual: tr.args@.len() as usize,
                        },
                    ))
                }
            },
            _ => true,
        },
{
}

/// Associated-type implicit bound: for the `k`-th associated type of
/// the trait at index `i`, the lowered datum carries exactly one
/// where-clause — the owning trait applied to its own parameters, each
/// parameter `j` read back as variable `j`, `Self` last.
pub proof fn lemma_assoc_implicit_bound(items: Seq<ast::Item>, prog: ir::Program, i: int, k: int)
    requires
        program_lowers_to(items, prog),
        0 <= i < items.len(),
        items[i] is TraitDefn,
        0 <= k < item_assoc_len(items[i]),
    ensures
        ({
            let id = items.len() as int + assoc_count(items, i) + k;
            &&& prog.associated_ty_data@.contains_key(id)
            &&& assoc_data_of(items, i, k, prog.associated_ty_data@[id])
            &&& prog.associated_ty_data@[id].where_clauses@.len() == 1
            &&& match prog.associated_ty_data@[id].where_clauses@[0] {
                ir::WhereClause::Implemented(tr) => {
                    &&& tr.trait_id == ItemId { index: i as usize }
                    &&& tr.parameters@.len() == all_params(items[i]).len()
                    &&& forall|j: int|
                        0 <= j < all_params(items[i]).len() ==> #[trigger] tr.parameters@[j]
                            == (match all_params(items[i])[j] {
                            ParameterKind::Ty(_) => ir::Parameter::Ty(ir::Ty::Var(j as usize)),
                            ParameterKind::Lifetime(_) => ir::Parameter::Lifetime(
                                ir::Lifetime::Var(j as usize),
                            ),
                        })
                },
                _ => false,
            }
        }),
{
    assert(assoc_entries_ok(items, prog.associated_ty_data@, i));
    assert(assoc_entry_ok(items, prog.associated_ty_data@, i, k));
    let id = items.len() as int + assoc_count(items, i) + k;
    let ad = prog.associated_ty_data@[id];
    match ad.where_clauses@[0] {
        ir::WhereClause::Implemented(tr) => {
            assert(tr.parameters@ == self_ref_params(all_params(items[i])));
        },
        _ => {},
    }
}

/// Quantifier flattening, empty binder list: a quantifier over no
/// parameters lowers to exactly the lowered inner goal, with no
/// wrapping node.
pub proof fn lemma_quantifier_empty(
    m: EnvModel,
    qk: ir::QuantifierKind,
    g: ast::Goal,
    v: ir::Goal,
)
    ensures
        goal_quant_lowers_to(m, qk, Seq::<ParameterKind<Identifier>>::empty(), g, v)
            == goal_lowers_to(m, g, v),
{
}

/// Quantifier flattening: a universal quantifier over two binders
/// lowers to two nested single-parameter quantifier nodes, outermost
/// first in declared order, with the inner goal lowered under both
/// binders in scope.
pub proof fn lemma_quantifier_flattening(
    m: EnvModel,
    pks: Seq<ParameterKind<Identifier>>,
    g: ast::Goal,
    v: ir::Goal,
)
    requires
        pks.len() == 2,
        goal_quant_lowers_to(m, ir::QuantifierKind::ForAll, pks, g, v),
    ensures
        match v {
            ir::Goal::Quantified(qk0, pk0, sub) => {
                &&& qk0 == ir::QuantifierKind::ForAll
                &&& pk0 == pk_erase(pks[0])
                &&& match *sub {
                    ir::Goal::Quantified(qk1, pk1, sub2) => {
                        &&& qk1 == ir::QuantifierKind::ForAll
                        &&& pk1 == pk_erase(pks[1])
                        &&& goal_lowers_to(
                            m.with_params(seq![pks[1]] + (seq![pks[0]] + m.params)),
                            g,
                            *sub2,
                        )
                    },
                    _ => false,
                }
            },
            _ => false,
        },
{
    assert(pks.skip(1)[0] == pks[1]);
    assert(pks.skip(1).skip(1).len() == 0);
    match v {
        ir::Goal::Quantified(qk0, pk0, sub) => {
            let m1 = m.with_params(seq![pks[0]] + m.params);
            assert(goal_quant_lowers_to(m1, ir::QuantifierKind::ForAll, pks.skip(1), g, *sub));
            match *sub {
                ir::Goal::Quantified(qk1, pk1, sub2) => {
                    let m2 = m1.with_params(seq![pks.skip(1)[0]] + m1.params);
                    assert(goal_quant_lowers_to(
                        m2,
                        ir::QuantifierKind::ForAll,
                        pks.skip(1).skip(1),
                        g,
                        *sub2,
                    ));
                    assert(goal_lowers_to(m2, g, *sub2));
                },
                _ => {},
            }
        },
        _ => {},
    }
}

/// Shadowing: a bound type parameter named identically to a global
/// struct or trait resolves to the parameter, never the global,
/// anywhere the parameter is in scope.
pub proof fn lemma_shadowing(m: EnvModel, name: Identifier)
    requires
        param_index(m.params, ParameterKind::Ty(name)) >= 0,
    ensures
        lookup_spec(m, name) == Result::<NameLookup, LowerError>::Ok(
            NameLookup::Parameter(param_index(m.params, ParameterKind::Ty(name)) as usize),
        ),
        !(lookup_spec(m, name) matches Result::Ok(NameLookup::Type(_))),
{
}

} // verus!
