use chalk_lower::ast;
use chalk_lower::env::{Env, LifetimeLookup, NameLookup};
use chalk_lower::error::LowerError;
use chalk_lower::ir;
use chalk_lower::maps::{AssocNameMap, IdMap, NameMap};

fn name(n: u64) -> ast::Identifier {
    ast::Identifier::Name(n)
}

fn ty_param(n: u64) -> ast::ParameterKind<ast::Identifier> {
    ast::ParameterKind::Ty(ast::Identifier::Name(n))
}

fn lt_param(n: u64) -> ast::ParameterKind<ast::Identifier> {
    ast::ParameterKind::Lifetime(ast::Identifier::Name(n))
}

fn ty_id(n: u64) -> ast::Ty {
    ast::Ty::Id { name: name(n) }
}

const S: u64 = 3;
const BAR: u64 = 2;
const T: u64 = 10;
const ASSOC: u64 = 20;

/// struct S {}  +  trait Bar<T> { type Assoc; }
fn s_bar_program() -> ir::Program {
    ast::Program {
        items: vec![
            ast::Item::StructDefn(ast::StructDefn {
                name: name(S),
                parameter_kinds: vec![],
                where_clauses: vec![],
            }),
            ast::Item::TraitDefn(ast::TraitDefn {
                name: name(BAR),
                parameter_kinds: vec![ty_param(T)],
                where_clauses: vec![],
                assoc_ty_names: vec![name(ASSOC)],
            }),
        ],
    }
    .lower()
    .unwrap()
}

fn bar_of_s() -> ast::TraitRef {
    ast::TraitRef {
        trait_name: name(BAR),
        args: vec![ast::Parameter::Ty(ty_id(S)), ast::Parameter::Ty(ty_id(S))],
    }
}

#[test]
fn quantifier_list_flattens_outermost_first() {
    let prog = s_bar_program();
    let g = ast::Goal::ForAll(
        vec![ty_param(T), lt_param(7)],
        Box::new(ast::Goal::WellFormed(ty_id(T))),
    );
    let lowered = prog.lower_goal(&g).unwrap();
    match *lowered {
        ir::Goal::Quantified(ir::QuantifierKind::ForAll, ast::ParameterKind::Ty(()), inner) => {
            match *inner {
                ir::Goal::Quantified(
                    ir::QuantifierKind::ForAll,
                    ast::ParameterKind::Lifetime(()),
                    leaf,
                ) => match *leaf {
                    // under both binders the type parameter sits behind
                    // the innermost lifetime, at index 1
                    ir::Goal::Leaf(ir::WhereClauseGoal::WellFormed(ir::Ty::Var(1))) => {}
                    other => panic!("unexpected inner goal {:?}", other),
                },
                other => panic!("unexpected second quantifier {:?}", other),
            }
        }
        other => panic!("unexpected outer goal {:?}", other),
    }
}

#[test]
fn empty_quantifier_adds_no_node() {
    let prog = s_bar_program();
    let g = ast::Goal::Exists(vec![], Box::new(ast::Goal::WellFormed(ty_id(S))));
    let lowered = prog.lower_goal(&g).unwrap();
    match *lowered {
        ir::Goal::Leaf(ir::WhereClauseGoal::WellFormed(ir::Ty::Apply(app))) => {
            assert_eq!(app.name, ir::TypeName::ItemId(ir::ItemId { index: 0 }));
        }
        other => panic!("expected a bare leaf, got {:?}", other),
    }
}

#[test]
fn implies_and_conjunction_share_the_environment() {
    let prog = s_bar_program();
    let wc = ast::WhereClause::Implemented { trait_ref: bar_of_s() };
    let g = ast::Goal::And(
        Box::new(ast::Goal::Implies(
            wc,
            Box::new(ast::Goal::Leaf(ast::WhereClause::Implemented { trait_ref: bar_of_s() })),
        )),
        Box::new(ast::Goal::WellFormed(ty_id(S))),
    );
    let lowered = prog.lower_goal(&g).unwrap();
    match *lowered {
        ir::Goal::And(left, right) => {
            match *left {
                ir::Goal::Implies(ir::WhereClause::Implemented(tr), leaf) => {
                    assert_eq!(tr.trait_id, ir::ItemId { index: 1 });
                    match *leaf {
                        ir::Goal::Leaf(ir::WhereClauseGoal::Implemented(tr2)) => {
                            assert_eq!(tr2.trait_id, ir::ItemId { index: 1 });
                            assert_eq!(tr2.parameters.len(), 2);
                        }
                        other => panic!("unexpected leaf {:?}", other),
                    }
                }
                other => panic!("unexpected implication {:?}", other),
            }
            match *right {
                ir::Goal::Leaf(ir::WhereClauseGoal::WellFormed(_)) => {}
                other => panic!("unexpected right side {:?}", other),
            }
        }
        other => panic!("expected a conjunction, got {:?}", other),
    }
}

#[test]
fn shadowing_parameter_beats_global() {
    let prog = s_bar_program();
    // a type parameter named like the global struct S hides it
    let g = ast::Goal::ForAll(vec![ty_param(S)], Box::new(ast::Goal::WellFormed(ty_id(S))));
    let lowered = prog.lower_goal(&g).unwrap();
    match *lowered {
        ir::Goal::Quantified(ir::QuantifierKind::ForAll, ast::ParameterKind::Ty(()), inner) => {
            match *inner {
                ir::Goal::Leaf(ir::WhereClauseGoal::WellFormed(ir::Ty::Var(0))) => {}
                other => panic!("expected the bound parameter, got {:?}", other),
            }
        }
        other => panic!("unexpected goal {:?}", other),
    }
}

#[test]
fn projection_equality_becomes_normalize() {
    let prog = s_bar_program();
    let g = ast::Goal::Leaf(ast::WhereClause::ProjectionEq {
        projection: ast::ProjectionTy { trait_ref: bar_of_s(), name: name(ASSOC) },
        ty: ty_id(S),
    });
    let lowered = prog.lower_goal(&g).unwrap();
    match *lowered {
        ir::Goal::Leaf(ir::WhereClauseGoal::Normalize(nz)) => {
            // the associated type got identity 2, after the two items
            assert_eq!(nz.projection.associated_ty_id, ir::ItemId { index: 2 });
            // the projection carries the owning trait reference's parameters
            assert_eq!(nz.projection.parameters.len(), 2);
            match nz.ty {
                ir::Ty::Apply(app) => {
                    assert_eq!(app.name, ir::TypeName::ItemId(ir::ItemId { index: 0 }))
                }
                other => panic!("unexpected type {:?}", other),
            }
        }
        other => panic!("expected a normalize constraint, got {:?}", other),
    }
}

#[test]
fn unknown_associated_type_names_the_trait() {
    let prog = s_bar_program();
    let g = ast::Goal::Leaf(ast::WhereClause::ProjectionEq {
        projection: ast::ProjectionTy { trait_ref: bar_of_s(), name: name(99) },
        ty: ty_id(S),
    });
    assert_eq!(
        prog.lower_goal(&g).unwrap_err(),
        LowerError::UnknownAssociatedType { trait_id: ir::ItemId { index: 1 }, name: name(99) }
    );
}

#[test]
fn unresolved_name_is_reported() {
    let prog = s_bar_program();
    let g = ast::Goal::WellFormed(ty_id(99));
    assert_eq!(prog.lower_goal(&g).unwrap_err(), LowerError::UnresolvedName(name(99)));
}

#[test]
fn parameter_used_as_trait_is_not_a_trait() {
    let prog = s_bar_program();
    let g = ast::Goal::ForAll(
        vec![ty_param(T)],
        Box::new(ast::Goal::Leaf(ast::WhereClause::Implemented {
            trait_ref: ast::TraitRef { trait_name: name(T), args: vec![] },
        })),
    );
    assert_eq!(prog.lower_goal(&g).unwrap_err(), LowerError::NotATrait(name(T)));
}

#[test]
fn parameter_cannot_take_arguments() {
    let prog = s_bar_program();
    let g = ast::Goal::ForAll(
        vec![ty_param(T)],
        Box::new(ast::Goal::WellFormed(ast::Ty::Apply { name: name(T), args: vec![] })),
    );
    assert_eq!(prog.lower_goal(&g).unwrap_err(), LowerError::InvalidUseOfParameter(name(T)));
}

#[test]
fn unresolved_lifetime_is_reported() {
    let prog = ast::Program {
        items: vec![ast::Item::StructDefn(ast::StructDefn {
            name: name(5),
            parameter_kinds: vec![lt_param(7)],
            where_clauses: vec![],
        })],
    }
    .lower()
    .unwrap();
    let g = ast::Goal::WellFormed(ast::Ty::Apply {
        name: name(5),
        args: vec![ast::Parameter::Lifetime(ast::Lifetime::Id { name: name(77) })],
    });
    assert_eq!(prog.lower_goal(&g).unwrap_err(), LowerError::UnresolvedLifetime(name(77)));
}

#[test]
fn quantified_type_counts_its_binders() {
    // struct R<'a> {} and the type for<'a> R<'a>
    let prog = ast::Program {
        items: vec![ast::Item::StructDefn(ast::StructDefn {
            name: name(6),
            parameter_kinds: vec![lt_param(7)],
            where_clauses: vec![],
        })],
    }
    .lower()
    .unwrap();
    let g = ast::Goal::WellFormed(ast::Ty::ForAll {
        lifetime_names: vec![name(8)],
        ty: Box::new(ast::Ty::Apply {
            name: name(6),
            args: vec![ast::Parameter::Lifetime(ast::Lifetime::Id { name: name(8) })],
        }),
    });
    let lowered = prog.lower_goal(&g).unwrap();
    match *lowered {
        ir::Goal::Leaf(ir::WhereClauseGoal::WellFormed(ir::Ty::ForAll(q))) => {
            assert_eq!(q.num_binders, 1);
            match &q.ty {
                ir::Ty::Apply(app) => {
                    assert_eq!(app.parameters, vec![ir::Parameter::Lifetime(ir::Lifetime::Var(0))])
                }
                other => panic!("unexpected body {:?}", other),
            }
        }
        other => panic!("expected a quantified type, got {:?}", other),
    }
}

#[test]
fn outer_parameter_shifts_under_type_quantifier() {
    // struct P2<'a, T> {}; under forall<T>, the type for<'b> P2<'b, T>
    // sees 'b at 0 and T shifted to 1
    let prog = ast::Program {
        items: vec![ast::Item::StructDefn(ast::StructDefn {
            name: name(9),
            parameter_kinds: vec![lt_param(7), ty_param(T)],
            where_clauses: vec![],
        })],
    }
    .lower()
    .unwrap();
    let g = ast::Goal::ForAll(
        vec![ty_param(T)],
        Box::new(ast::Goal::WellFormed(ast::Ty::ForAll {
            lifetime_names: vec![name(8)],
            ty: Box::new(ast::Ty::Apply {
                name: name(9),
                args: vec![
                    ast::Parameter::Lifetime(ast::Lifetime::Id { name: name(8) }),
                    ast::Parameter::Ty(ty_id(T)),
                ],
            }),
        })),
    );
    let lowered = prog.lower_goal(&g).unwrap();
    match *lowered {
        ir::Goal::Quantified(ir::QuantifierKind::ForAll, ast::ParameterKind::Ty(()), inner) => {
            match *inner {
                ir::Goal::Leaf(ir::WhereClauseGoal::WellFormed(ir::Ty::ForAll(q))) => {
                    assert_eq!(q.num_binders, 1);
                    match &q.ty {
                        ir::Ty::Apply(app) => assert_eq!(
                            app.parameters,
                            vec![
                                ir::Parameter::Lifetime(ir::Lifetime::Var(0)),
                                ir::Parameter::Ty(ir::Ty::Var(1)),
                            ]
                        ),
                        other => panic!("unexpected body {:?}", other),
                    }
                }
                other => panic!("unexpected inner goal {:?}", other),
            }
        }
        other => panic!("unexpected goal {:?}", other),
    }
}

#[test]
fn introduce_shifts_existing_and_numbers_new() {
    let tids = NameMap::new();
    let tks: IdMap<ir::TypeKind> = IdMap::new();
    let atids = AssocNameMap::new();
    let env = Env {
        type_ids: &tids,
        type_kinds: &tks,
        associated_ty_ids: &atids,
        parameter_map: vec![ty_param(5)],
    };
    assert_eq!(env.lookup(name(5)), Ok(NameLookup::Parameter(0)));
    let env2 = env.introduce(&vec![ty_param(7), lt_param(8)]);
    // the new binders take indices 0 and 1, the old parameter moves to 2
    assert_eq!(env2.lookup(name(7)), Ok(NameLookup::Parameter(0)));
    assert_eq!(env2.lookup_lifetime(name(8)), Ok(LifetimeLookup::Parameter(1)));
    assert_eq!(env2.lookup(name(5)), Ok(NameLookup::Parameter(2)));
    // the two tags keep separate name spaces
    assert_eq!(env2.lookup(name(8)), Err(LowerError::UnresolvedName(name(8))));
    assert_eq!(env2.lookup_lifetime(name(7)), Err(LowerError::UnresolvedLifetime(name(7))));
}

#[test]
fn lookup_prefers_parameter_over_global() {
    let mut tids = NameMap::new();
    tids.insert(name(5), ir::ItemId { index: 4 });
    let tks: IdMap<ir::TypeKind> = IdMap::new();
    let atids = AssocNameMap::new();
    let env = Env {
        type_ids: &tids,
        type_kinds: &tks,
        associated_ty_ids: &atids,
        parameter_map: vec![ty_param(5)],
    };
    assert_eq!(env.lookup(name(5)), Ok(NameLookup::Parameter(0)));
    let empty_env = Env {
        type_ids: &tids,
        type_kinds: &tks,
        associated_ty_ids: &atids,
        parameter_map: vec![],
    };
    assert_eq!(empty_env.lookup(name(5)), Ok(NameLookup::Type(ir::ItemId { index: 4 })));
}
