use chalk_lower::ast;
use chalk_lower::error::LowerError;
use chalk_lower::ir;

fn name(n: u64) -> ast::Identifier {
    ast::Identifier::Name(n)
}

fn ty_param(n: u64) -> ast::ParameterKind<ast::Identifier> {
    ast::ParameterKind::Ty(ast::Identifier::Name(n))
}

fn lt_param(n: u64) -> ast::ParameterKind<ast::Identifier> {
    ast::ParameterKind::Lifetime(ast::Identifier::Name(n))
}

fn struct_item(
    n: u64,
    parameter_kinds: Vec<ast::ParameterKind<ast::Identifier>>,
    where_clauses: Vec<ast::WhereClause>,
) -> ast::Item {
    ast::Item::StructDefn(ast::StructDefn { name: name(n), parameter_kinds, where_clauses })
}

fn trait_item(
    n: u64,
    parameter_kinds: Vec<ast::ParameterKind<ast::Identifier>>,
    where_clauses: Vec<ast::WhereClause>,
    assoc: Vec<u64>,
) -> ast::Item {
    ast::Item::TraitDefn(ast::TraitDefn {
        name: name(n),
        parameter_kinds,
        where_clauses,
        assoc_ty_names: assoc.into_iter().map(ast::Identifier::Name).collect(),
    })
}

fn ty_id(n: u64) -> ast::Ty {
    ast::Ty::Id { name: name(n) }
}

const FOO: u64 = 1;
const BAR: u64 = 2;
const T: u64 = 10;
const ASSOC: u64 = 20;
const S: u64 = 3;

/// struct Foo<T> {}  +  trait Bar<T> { type Assoc; }
fn foo_bar_program() -> ast::Program {
    ast::Program {
        items: vec![
            struct_item(FOO, vec![ty_param(T)], vec![]),
            trait_item(BAR, vec![ty_param(T)], vec![], vec![ASSOC]),
        ],
    }
}

#[test]
fn end_to_end_struct_and_trait() {
    let prog = foo_bar_program().lower().unwrap();

    assert_eq!(prog.type_kinds.entries.len(), 2);
    let foo_id = prog.type_ids.get(name(FOO)).unwrap();
    assert_eq!(foo_id, ir::ItemId { index: 0 });
    let fk = prog.type_kinds.get(foo_id).unwrap();
    assert_eq!(fk.sort, ir::TypeSort::Struct);
    assert_eq!(fk.name, name(FOO));
    assert_eq!(fk.parameter_kinds, vec![ty_param(T)]);

    let bar_id = prog.type_ids.get(name(BAR)).unwrap();
    assert_eq!(bar_id, ir::ItemId { index: 1 });
    let bk = prog.type_kinds.get(bar_id).unwrap();
    assert_eq!(bk.sort, ir::TypeSort::Trait);
    // as a type constructor the trait keeps only its declared parameter
    assert_eq!(bk.parameter_kinds, vec![ty_param(T)]);

    let td = prog.trait_data.get(bar_id).unwrap();
    assert_eq!(
        td.parameter_kinds,
        vec![ty_param(T), ast::ParameterKind::Ty(ast::Identifier::SelfName)]
    );
    assert_eq!(td.where_clauses.len(), 0);

    // the one associated type got the next identity and the implicit bound
    let ad = prog.associated_ty_data.get(ir::ItemId { index: 2 }).unwrap();
    assert_eq!(ad.trait_id, bar_id);
    assert_eq!(ad.name, name(ASSOC));
    assert_eq!(ad.parameter_kinds, td.parameter_kinds);
    assert_eq!(ad.where_clauses.len(), 1);
    match &ad.where_clauses[0] {
        ir::WhereClause::Implemented(tr) => {
            assert_eq!(tr.trait_id, bar_id);
            assert_eq!(
                tr.parameters,
                vec![ir::Parameter::Ty(ir::Ty::Var(0)), ir::Parameter::Ty(ir::Ty::Var(1))]
            );
        }
        other => panic!("expected an implemented bound, got {:?}", other),
    }
}

#[test]
fn item_ids_are_dense_and_distinct() {
    let prog = foo_bar_program().lower().unwrap();
    // ids 0 and 1 for the items, 2 for the associated type: no overlap
    assert_eq!(prog.type_kinds.entries.len(), 2);
    assert_eq!(prog.associated_ty_data.entries.len(), 1);
    assert!(prog.type_kinds.get(ir::ItemId { index: 0 }).is_some());
    assert!(prog.type_kinds.get(ir::ItemId { index: 1 }).is_some());
    assert!(prog.type_kinds.get(ir::ItemId { index: 2 }).is_none());
    assert!(prog.associated_ty_data.get(ir::ItemId { index: 2 }).is_some());
    assert!(prog.associated_ty_data.get(ir::ItemId { index: 0 }).is_none());
    assert!(prog.associated_ty_data.get(ir::ItemId { index: 1 }).is_none());
}

#[test]
fn trait_self_is_last_after_lifetimes() {
    let prog = ast::Program {
        items: vec![trait_item(BAR, vec![lt_param(7), ty_param(T)], vec![], vec![])],
    }
    .lower()
    .unwrap();
    let td = prog.trait_data.get(ir::ItemId { index: 0 }).unwrap();
    assert_eq!(
        td.parameter_kinds,
        vec![
            lt_param(7),
            ty_param(T),
            ast::ParameterKind::Ty(ast::Identifier::SelfName)
        ]
    );
}

#[test]
fn arity_mismatch_zero_and_two() {
    let prog = foo_bar_program().lower().unwrap();
    // applying Foo<T> to zero arguments
    let g0 = ast::Goal::WellFormed(ast::Ty::Apply { name: name(FOO), args: vec![] });
    match prog.lower_goal(&g0) {
        Err(LowerError::ArityMismatch { expected: 1, actual: 0, name: n }) => {
            assert_eq!(n, name(FOO));
        }
        other => panic!("expected an arity mismatch, got {:?}", other),
    }
    // a bare Foo is an application to zero arguments too
    match prog.lower_goal(&ast::Goal::WellFormed(ty_id(FOO))) {
        Err(LowerError::ArityMismatch { expected: 1, actual: 0, .. }) => {}
        other => panic!("expected an arity mismatch, got {:?}", other),
    }
    // applying Foo<T> to two arguments
    let g2 = ast::Goal::WellFormed(ast::Ty::Apply {
        name: name(FOO),
        args: vec![
            ast::Parameter::Ty(ty_id(FOO)),
            ast::Parameter::Ty(ty_id(FOO)),
        ],
    });
    match prog.lower_goal(&g2) {
        Err(LowerError::ArityMismatch { expected: 1, actual: 2, .. }) => {}
        other => panic!("expected an arity mismatch, got {:?}", other),
    }
}

#[test]
fn exact_arity_succeeds() {
    let prog = ast::Program {
        items: vec![
            struct_item(FOO, vec![ty_param(T)], vec![]),
            struct_item(S, vec![], vec![]),
        ],
    }
    .lower()
    .unwrap();
    let g = ast::Goal::WellFormed(ast::Ty::Apply {
        name: name(FOO),
        args: vec![ast::Parameter::Ty(ty_id(S))],
    });
    let lowered = prog.lower_goal(&g).unwrap();
    match *lowered {
        ir::Goal::Leaf(ir::WhereClauseGoal::WellFormed(ir::Ty::Apply(app))) => {
            assert_eq!(app.name, ir::TypeName::ItemId(ir::ItemId { index: 0 }));
            assert_eq!(app.parameters.len(), 1);
            match &app.parameters[0] {
                ir::Parameter::Ty(ir::Ty::Apply(inner)) => {
                    assert_eq!(inner.name, ir::TypeName::ItemId(ir::ItemId { index: 1 }));
                    assert_eq!(inner.parameters.len(), 0);
                }
                other => panic!("unexpected argument {:?}", other),
            }
        }
        other => panic!("unexpected goal {:?}", other),
    }
}

#[test]
fn trait_ref_arity_counts_self() {
    // trait Bar<T> as a bound takes its declared parameter plus the self type
    let program = ast::Program {
        items: vec![
            struct_item(S, vec![], vec![]),
            trait_item(BAR, vec![ty_param(T)], vec![], vec![]),
            ast::Item::Impl(ast::Impl {
                parameter_kinds: vec![],
                trait_ref: ast::TraitRef { trait_name: name(BAR), args: vec![ast::Parameter::Ty(ty_id(S))] },
                where_clauses: vec![],
                assoc_ty_values: vec![],
            }),
        ],
    };
    match program.lower() {
        Err(LowerError::ArityMismatch { expected: 2, actual: 1, name: n }) => {
            assert_eq!(n, name(BAR));
        }
        other => panic!("expected an arity mismatch, got {:?}", other),
    }
}

#[test]
fn impl_lowers_in_full() {
    // impl Bar<S> for S { type Assoc = S; }
    let program = ast::Program {
        items: vec![
            struct_item(S, vec![], vec![]),
            trait_item(BAR, vec![ty_param(T)], vec![], vec![ASSOC]),
            ast::Item::Impl(ast::Impl {
                parameter_kinds: vec![],
                trait_ref: ast::TraitRef {
                    trait_name: name(BAR),
                    args: vec![ast::Parameter::Ty(ty_id(S)), ast::Parameter::Ty(ty_id(S))],
                },
                where_clauses: vec![],
                assoc_ty_values: vec![ast::AssocTyValue { name: name(ASSOC), value: ty_id(S) }],
            }),
        ],
    };
    let prog = program.lower().unwrap();
    let im = prog.impl_data.get(ir::ItemId { index: 2 }).unwrap();
    assert_eq!(im.trait_ref.trait_id, ir::ItemId { index: 1 });
    assert_eq!(im.trait_ref.parameters.len(), 2);
    assert_eq!(im.parameter_kinds.len(), 0);
    assert_eq!(im.assoc_ty_values.len(), 1);
    assert_eq!(im.assoc_ty_values[0].name, name(ASSOC));
    match &im.assoc_ty_values[0].value {
        ir::Ty::Apply(app) => assert_eq!(app.name, ir::TypeName::ItemId(ir::ItemId { index: 0 })),
        other => panic!("unexpected value {:?}", other),
    }
    assert_eq!(im.where_clauses.len(), 0);
}

#[test]
fn trait_where_clauses_see_self() {
    // trait Tr<T> where Self: Bar<T> — Self is in scope, last
    let program = ast::Program {
        items: vec![
            trait_item(BAR, vec![ty_param(T)], vec![], vec![]),
            ast::Item::TraitDefn(ast::TraitDefn {
                name: name(4),
                parameter_kinds: vec![ty_param(T)],
                where_clauses: vec![ast::WhereClause::Implemented {
                    trait_ref: ast::TraitRef {
                        trait_name: name(BAR),
                        args: vec![
                            ast::Parameter::Ty(ty_id(T)),
                            ast::Parameter::Ty(ast::Ty::Id { name: ast::Identifier::SelfName }),
                        ],
                    },
                }],
                assoc_ty_names: vec![],
            }),
        ],
    };
    let prog = program.lower().unwrap();
    let td = prog.trait_data.get(ir::ItemId { index: 1 }).unwrap();
    assert_eq!(td.where_clauses.len(), 1);
    match &td.where_clauses[0] {
        ir::WhereClause::Implemented(tr) => {
            assert_eq!(tr.trait_id, ir::ItemId { index: 0 });
            assert_eq!(
                tr.parameters,
                vec![ir::Parameter::Ty(ir::Ty::Var(0)), ir::Parameter::Ty(ir::Ty::Var(1))]
            );
        }
        other => panic!("unexpected clause {:?}", other),
    }
}

#[test]
fn struct_where_clauses_are_dropped_by_design() {
    // a struct's where-clauses are not lowered into the aggregate
    // output, so even an unresolvable one does not fail the pass
    let program = ast::Program {
        items: vec![struct_item(
            S,
            vec![],
            vec![ast::WhereClause::Implemented {
                trait_ref: ast::TraitRef { trait_name: name(99), args: vec![] },
            }],
        )],
    };
    assert!(program.lower().is_ok());
}

#[test]
fn duplicate_names_later_definition_wins() {
    // two structs named alike: the later one is what the name resolves to
    let program = ast::Program {
        items: vec![
            struct_item(FOO, vec![], vec![]),
            struct_item(FOO, vec![ty_param(T)], vec![]),
        ],
    };
    let prog = program.lower().unwrap();
    assert_eq!(prog.type_ids.get(name(FOO)), Some(ir::ItemId { index: 1 }));
    // both kinds are still recorded under their own identities
    assert_eq!(prog.type_kinds.get(ir::ItemId { index: 0 }).unwrap().parameter_kinds.len(), 0);
    assert_eq!(prog.type_kinds.get(ir::ItemId { index: 1 }).unwrap().parameter_kinds.len(), 1);
}

#[test]
fn first_failing_item_reports_its_error() {
    // the first bad item decides the error: the impl at index 1 names
    // an unknown trait, the impl at index 2 would mis-apply a parameter
    let program = ast::Program {
        items: vec![
            struct_item(S, vec![], vec![]),
            ast::Item::Impl(ast::Impl {
                parameter_kinds: vec![],
                trait_ref: ast::TraitRef { trait_name: name(98), args: vec![] },
                where_clauses: vec![],
                assoc_ty_values: vec![],
            }),
            ast::Item::Impl(ast::Impl {
                parameter_kinds: vec![],
                trait_ref: ast::TraitRef { trait_name: name(97), args: vec![] },
                where_clauses: vec![],
                assoc_ty_values: vec![],
            }),
        ],
    };
    assert_eq!(program.lower().unwrap_err(), LowerError::UnresolvedName(name(98)));
}

#[test]
fn not_a_trait_for_struct_target() {
    let program = ast::Program {
        items: vec![
            struct_item(S, vec![], vec![]),
            ast::Item::Impl(ast::Impl {
                parameter_kinds: vec![],
                trait_ref: ast::TraitRef { trait_name: name(S), args: vec![ast::Parameter::Ty(ty_id(S))] },
                where_clauses: vec![],
                assoc_ty_values: vec![],
            }),
        ],
    };
    assert_eq!(program.lower().unwrap_err(), LowerError::NotATrait(name(S)));
}

#[test]
fn lower_type_kind_and_parameter_helpers() {
    let d = ast::TraitDefn {
        name: name(BAR),
        parameter_kinds: vec![ty_param(T)],
        where_clauses: vec![],
        assoc_ty_names: vec![],
    };
    let tk = d.lower_type_kind();
    assert_eq!(tk.sort, ir::TypeSort::Trait);
    assert_eq!(tk.parameter_kinds, vec![ty_param(T)]);
    assert_eq!(
        d.all_parameters(),
        vec![ty_param(T), ast::ParameterKind::Ty(ast::Identifier::SelfName)]
    );
    assert_eq!(d.synthetic_parameters(), Some(ast::ParameterKind::Ty(ast::Identifier::SelfName)));
    let item = ast::Item::TraitDefn(d);
    assert_eq!(
        item.all_parameters(),
        vec![ty_param(T), ast::ParameterKind::Ty(ast::Identifier::SelfName)]
    );
    let s = ast::StructDefn { name: name(S), parameter_kinds: vec![], where_clauses: vec![] };
    assert_eq!(s.lower_type_kind().sort, ir::TypeSort::Struct);
    let si = ast::Item::StructDefn(s);
    assert_eq!(si.synthetic_parameters(), None);
    assert_eq!(si.all_parameters(), vec![]);
}
