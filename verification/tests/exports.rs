use cjs_to_esm::ast::{
    AssignExpr, CallExpr, Expr, ExportSpecifier, Key, MemberExpr, Module, ModuleItem,
    NamedExport, Other, Part, Pat, Prop, Stmt, VarDecl, VarDeclKind, VarDeclarator,
};
use cjs_to_esm::transform_cjs::{
    cjs_to_esm, transform_exports, transform_module_default_export,
    transform_module_exports_ident_to_named_export, transform_module_exports_named_expression,
    transform_module_exports_object,
};
use cjs_to_esm::visitors::Warning;

fn ident(name: &str) -> Expr {
    Expr::Ident(name.to_string())
}

fn string(value: &str) -> Expr {
    Expr::Str(value.to_string())
}

fn number(tag: u64) -> Expr {
    Expr::Other(Other { tag, parts: vec![] })
}

/// `<left> + <right>`, with the host's handle 400.
fn sum(left: Expr, right: Expr) -> Expr {
    Expr::Other(Other { tag: 400, parts: vec![Part::Expr(left), Part::Expr(right)] })
}

fn call(callee: Expr, args: Vec<Expr>) -> Expr {
    Expr::Call(CallExpr { callee: Box::new(callee), args })
}

fn member(obj: Expr, prop: &str) -> Expr {
    Expr::Member(MemberExpr { obj: Box::new(obj), prop: Key::Ident(prop.to_string()) })
}

fn assign(target: Expr, value: Expr) -> ModuleItem {
    ModuleItem::Stmt(Stmt::Expr(Expr::Assign(AssignExpr {
        left: Pat::Expr(Box::new(target)),
        right: Box::new(value),
    })))
}

fn module_exports() -> Expr {
    member(ident("module"), "exports")
}

fn key_value(key: &str, value: Expr) -> Prop {
    Prop::KeyValue { key: Key::Ident(key.to_string()), value }
}

fn quoted(key: &str, value: Expr) -> Prop {
    Prop::KeyValue { key: Key::Str(key.to_string()), value }
}

fn spread(value: Expr) -> Prop {
    Prop::Other(Other { tag: 500, parts: vec![Part::Expr(value)] })
}

fn export(specifiers: Vec<(&str, Option<&str>)>) -> ModuleItem {
    ModuleItem::ExportNamed(NamedExport {
        specifiers: specifiers
            .into_iter()
            .map(|(orig, exported)| ExportSpecifier {
                orig: orig.to_string(),
                exported: exported.map(|s| s.to_string()),
            })
            .collect(),
    })
}

fn export_const(name: &str, init: Expr) -> ModuleItem {
    ModuleItem::ExportConst { name: name.to_string(), init }
}

fn constant(name: &str, init: Expr) -> ModuleItem {
    ModuleItem::Stmt(Stmt::Var(VarDecl {
        kind: VarDeclKind::Const,
        decls: vec![VarDeclarator { name: Pat::Ident(name.to_string()), init: Some(init) }],
    }))
}

fn module(body: Vec<ModuleItem>) -> Module {
    Module { body }
}

#[test]
fn module_exports_of_an_identifier_becomes_a_named_and_a_default_export() {
    let m = module(vec![assign(module_exports(), ident("foo"))]);
    let out = transform_module_exports_ident_to_named_export(&m).unwrap();
    assert_eq!(
        out.module,
        module(vec![export(vec![("foo", None)]), ModuleItem::ExportDefault(ident("foo"))])
    );
    assert!(out.warnings.is_empty());
}

#[test]
fn module_exports_of_an_identifier_through_the_whole_cascade() {
    let m = module(vec![assign(module_exports(), ident("foo"))]);
    let out = cjs_to_esm(&m).unwrap();
    assert_eq!(
        out.module,
        module(vec![export(vec![("foo", None)]), ModuleItem::ExportDefault(ident("foo"))])
    );
    assert!(out.warnings.is_empty());
}

#[test]
fn exports_go_to_the_end_and_other_statements_stay_in_order() {
    let m = module(vec![
        assign(module_exports(), ident("foo")),
        ModuleItem::Stmt(Stmt::Expr(call(ident("run"), vec![]))),
    ]);
    let out = transform_module_exports_ident_to_named_export(&m).unwrap();
    assert_eq!(
        out.module,
        module(vec![
            ModuleItem::Stmt(Stmt::Expr(call(ident("run"), vec![]))),
            export(vec![("foo", None)]),
            ModuleItem::ExportDefault(ident("foo")),
        ])
    );
}

#[test]
fn the_identifier_pass_leaves_other_values_and_other_targets_alone() {
    let items = || {
        vec![
            assign(module_exports(), number(42)),
            assign(member(ident("exports"), "foo"), ident("foo")),
            assign(member(module_exports(), "foo"), ident("foo")),
            assign(ident("exports"), ident("foo")),
        ]
    };
    let out = transform_module_exports_ident_to_named_export(&module(items())).unwrap();
    assert_eq!(out.module, module(items()));
}

#[test]
fn a_property_of_exports_with_another_identifier_is_exported_under_the_property_name() {
    let m = module(vec![assign(member(ident("exports"), "foo"), ident("bar"))]);
    let out = transform_module_exports_named_expression(&m).unwrap();
    assert_eq!(out.module, module(vec![export(vec![("bar", Some("foo"))])]));
    assert!(out.warnings.is_empty());
}

#[test]
fn a_property_of_exports_with_the_same_identifier_omits_the_rename() {
    let m = module(vec![assign(member(module_exports(), "foo"), ident("foo"))]);
    let out = transform_module_exports_named_expression(&m).unwrap();
    assert_eq!(out.module, module(vec![export(vec![("foo", None)])]));
}

#[test]
fn a_property_of_exports_with_a_value_becomes_an_exported_constant() {
    let m = module(vec![
        assign(member(module_exports(), "foo"), number(123)),
        assign(member(ident("exports"), "bar"), call(ident("make"), vec![string("x")])),
    ]);
    let out = transform_module_exports_named_expression(&m).unwrap();
    assert_eq!(
        out.module,
        module(vec![
            export_const("foo", number(123)),
            export_const("bar", call(ident("make"), vec![string("x")])),
        ])
    );
}

#[test]
fn a_property_of_exports_with_an_object_literal_stays() {
    let items = || vec![assign(member(ident("exports"), "foo"), Expr::Object(vec![]))];
    let out = transform_module_exports_named_expression(&module(items())).unwrap();
    assert_eq!(out.module, module(items()));
    let out = cjs_to_esm(&module(items())).unwrap();
    assert_eq!(out.module, module(items()));
    assert!(out.warnings.is_empty());
}

#[test]
fn the_property_pass_leaves_other_targets_alone() {
    let items = || {
        vec![
            assign(module_exports(), ident("foo")),
            assign(member(ident("other"), "foo"), ident("foo")),
            assign(
                Expr::Member(MemberExpr {
                    obj: Box::new(ident("exports")),
                    prop: Key::Computed(Box::new(string("foo"))),
                }),
                ident("foo"),
            ),
            assign(member(member(ident("module"), "other"), "foo"), ident("foo")),
        ]
    };
    let out = transform_module_exports_named_expression(&module(items())).unwrap();
    assert_eq!(out.module, module(items()));
}

#[test]
fn an_exported_object_literal_expands_to_named_exports() {
    let m = module(vec![assign(
        module_exports(),
        Expr::Object(vec![
            Prop::Shorthand("a".to_string()),
            key_value("b", ident("c")),
            key_value("d", sum(number(1), number(2))),
        ]),
    )]);
    let out = transform_module_exports_object(&m).unwrap();
    assert_eq!(
        out.module,
        module(vec![
            constant("_d$1", sum(number(1), number(2))),
            export(vec![("a", None), ("c", Some("b")), ("_d$1", Some("d"))]),
        ])
    );
    assert!(out.warnings.is_empty());
}

#[test]
fn an_exported_object_literal_through_the_whole_cascade() {
    let m = module(vec![assign(
        module_exports(),
        Expr::Object(vec![
            Prop::Shorthand("a".to_string()),
            key_value("b", ident("c")),
            key_value("d", sum(number(1), number(2))),
        ]),
    )]);
    let out = cjs_to_esm(&m).unwrap();
    assert_eq!(
        out.module,
        module(vec![
            constant("_d$1", sum(number(1), number(2))),
            export(vec![("a", None), ("c", Some("b")), ("_d$1", Some("d"))]),
        ])
    );
    assert!(out.warnings.is_empty());
}

#[test]
fn a_key_value_with_the_same_identifier_keeps_its_rename() {
    let m = module(vec![assign(module_exports(), Expr::Object(vec![key_value("a", ident("a"))]))]);
    let out = transform_module_exports_object(&m).unwrap();
    assert_eq!(out.module, module(vec![export(vec![("a", Some("a"))])]));
}

#[test]
fn a_quoted_key_that_is_an_identifier_is_exported() {
    let m = module(vec![assign(
        module_exports(),
        Expr::Object(vec![quoted("a", ident("b")), quoted("c", number(3))]),
    )]);
    let out = transform_module_exports_object(&m).unwrap();
    assert_eq!(
        out.module,
        module(vec![
            constant("_c$1", number(3)),
            export(vec![("b", Some("a")), ("_c$1", Some("c"))]),
        ])
    );
}

#[test]
fn hoisted_constants_are_numbered_across_the_pass_and_stand_before_the_exports() {
    let m = module(vec![
        assign(module_exports(), Expr::Object(vec![key_value("x", number(1))])),
        assign(
            module_exports(),
            Expr::Object(vec![key_value("y", number(2)), key_value("z", number(3))]),
        ),
    ]);
    let out = transform_module_exports_object(&m).unwrap();
    assert_eq!(
        out.module,
        module(vec![
            constant("_x$1", number(1)),
            constant("_y$2", number(2)),
            constant("_z$3", number(3)),
            export(vec![("_x$1", Some("x"))]),
            export(vec![("_y$2", Some("y")), ("_z$3", Some("z"))]),
        ])
    );
}

#[test]
fn an_empty_object_literal_exports_nothing() {
    let m = module(vec![assign(module_exports(), Expr::Object(vec![]))]);
    let out = transform_module_exports_object(&m).unwrap();
    assert_eq!(out.module, module(vec![export(vec![])]));
    assert!(out.warnings.is_empty());
}

#[test]
fn a_spread_makes_the_export_impure() {
    let items = || {
        vec![assign(
            module_exports(),
            Expr::Object(vec![key_value("a", number(1)), spread(ident("rest"))]),
        )]
    };
    let out = transform_module_exports_object(&module(items())).unwrap();
    assert_eq!(out.module, module(items()));
    assert_eq!(out.warnings, vec![Warning::ImpureDefaultExport]);
}

#[test]
fn a_key_that_is_no_identifier_makes_the_export_impure() {
    for key in ["a-b", "1a", "a b"] {
        let items = || vec![assign(module_exports(), Expr::Object(vec![quoted(key, ident("x"))]))];
        let out = transform_module_exports_object(&module(items())).unwrap();
        assert_eq!(out.module, module(items()));
        assert_eq!(out.warnings, vec![Warning::ImpureDefaultExport]);
    }
}

#[test]
fn an_unquoted_key_is_held_to_the_same_rule() {
    let items = || {
        vec![assign(module_exports(), Expr::Object(vec![key_value("not-a-name", ident("x"))]))]
    };
    let out = transform_module_exports_object(&module(items())).unwrap();
    assert_eq!(out.module, module(items()));
    assert_eq!(out.warnings, vec![Warning::ImpureDefaultExport]);
    let m = module(vec![assign(
        module_exports(),
        Expr::Object(vec![key_value("$ok_1", ident("x"))]),
    )]);
    let out = transform_module_exports_object(&m).unwrap();
    assert_eq!(out.module, module(vec![export(vec![("x", Some("$ok_1"))])]));
    assert!(out.warnings.is_empty());
}

#[test]
fn a_computed_or_numeric_key_makes_the_export_impure() {
    let computed = || {
        vec![assign(
            module_exports(),
            Expr::Object(vec![Prop::KeyValue {
                key: Key::Computed(Box::new(ident("k"))),
                value: ident("x"),
            }]),
        )]
    };
    let out = transform_module_exports_object(&module(computed())).unwrap();
    assert_eq!(out.module, module(computed()));
    assert_eq!(out.warnings, vec![Warning::ImpureDefaultExport]);
    let numeric = || {
        vec![assign(
            module_exports(),
            Expr::Object(vec![Prop::KeyValue {
                key: Key::Other(Other { tag: 9, parts: vec![] }),
                value: ident("x"),
            }]),
        )]
    };
    let out = transform_module_exports_object(&module(numeric())).unwrap();
    assert_eq!(out.module, module(numeric()));
    assert_eq!(out.warnings, vec![Warning::ImpureDefaultExport]);
}

#[test]
fn an_impure_export_falls_to_the_default_export_in_the_cascade() {
    let object = || Expr::Object(vec![Prop::Shorthand("a".to_string()), spread(ident("rest"))]);
    let m = module(vec![assign(module_exports(), object())]);
    let out = cjs_to_esm(&m).unwrap();
    assert_eq!(out.module, module(vec![ModuleItem::ExportDefault(object())]));
    assert_eq!(
        out.warnings,
        vec![Warning::ImpureDefaultExport, Warning::OpaqueDefaultExport]
    );
}

#[test]
fn the_object_pass_leaves_other_values_and_other_targets_alone() {
    let items = || {
        vec![
            assign(module_exports(), ident("foo")),
            assign(module_exports(), number(42)),
            assign(member(ident("exports"), "foo"), Expr::Object(vec![])),
        ]
    };
    let out = transform_module_exports_object(&module(items())).unwrap();
    assert_eq!(out.module, module(items()));
    assert!(out.warnings.is_empty());
}

#[test]
fn a_scalar_default_export_warns() {
    let m = module(vec![assign(module_exports(), number(42))]);
    let out = transform_module_default_export(&m).unwrap();
    assert_eq!(out.module, module(vec![ModuleItem::ExportDefault(number(42))]));
    assert_eq!(out.warnings, vec![Warning::OpaqueDefaultExport]);
}

#[test]
fn a_scalar_default_export_through_the_whole_cascade() {
    let m = module(vec![assign(module_exports(), number(42))]);
    let out = cjs_to_esm(&m).unwrap();
    assert_eq!(out.module, module(vec![ModuleItem::ExportDefault(number(42))]));
    assert_eq!(out.warnings, vec![Warning::OpaqueDefaultExport]);
}

#[test]
fn the_default_export_pass_takes_any_value() {
    let m = module(vec![assign(module_exports(), call(ident("make"), vec![]))]);
    let out = transform_module_default_export(&m).unwrap();
    assert_eq!(
        out.module,
        module(vec![ModuleItem::ExportDefault(call(ident("make"), vec![]))])
    );
    assert_eq!(out.warnings, vec![Warning::OpaqueDefaultExport]);
}

#[test]
fn the_default_export_pass_leaves_other_targets_alone() {
    let items = || {
        vec![
            assign(member(ident("exports"), "foo"), number(1)),
            assign(member(module_exports(), "foo"), number(1)),
            assign(ident("exports"), number(1)),
        ]
    };
    let out = transform_module_default_export(&module(items())).unwrap();
    assert_eq!(out.module, module(items()));
    assert!(out.warnings.is_empty());
}

#[test]
fn an_assignment_inside_another_expression_is_no_statement_and_stays() {
    let nested = || {
        vec![ModuleItem::Stmt(Stmt::Expr(call(
            ident("use"),
            vec![Expr::Assign(AssignExpr {
                left: Pat::Expr(Box::new(module_exports())),
                right: Box::new(ident("foo")),
            })],
        )))]
    };
    let out = cjs_to_esm(&module(nested())).unwrap();
    assert_eq!(out.module, module(nested()));
    assert!(out.warnings.is_empty());
}

#[test]
fn the_export_passes_run_in_their_order() {
    let m = module(vec![
        assign(member(ident("exports"), "n"), number(1)),
        assign(module_exports(), ident("foo")),
        assign(member(ident("exports"), "bar"), ident("baz")),
    ]);
    let out = transform_exports(&m).unwrap();
    assert_eq!(
        out.module,
        module(vec![
            export(vec![("foo", None)]),
            ModuleItem::ExportDefault(ident("foo")),
            export_const("n", number(1)),
            export(vec![("baz", Some("bar"))]),
        ])
    );
    assert!(out.warnings.is_empty());
}

#[test]
fn of_several_default_exports_the_last_one_stays() {
    let m = module(vec![
        assign(module_exports(), number(1)),
        assign(module_exports(), number(2)),
    ]);
    let out = transform_module_default_export(&m).unwrap();
    assert_eq!(out.module, module(vec![ModuleItem::ExportDefault(number(2))]));
    assert_eq!(out.warnings, vec![Warning::OpaqueDefaultExport]);
}

#[test]
fn every_default_assignment_goes_and_the_default_export_stands_last() {
    let m = module(vec![
        assign(module_exports(), number(1)),
        ModuleItem::Stmt(Stmt::Expr(call(ident("run"), vec![]))),
        assign(module_exports(), call(ident("make"), vec![])),
        export(vec![("kept", None)]),
        assign(module_exports(), number(3)),
        ModuleItem::Stmt(Stmt::Expr(call(ident("stop"), vec![]))),
    ]);
    let out = transform_module_default_export(&m).unwrap();
    assert_eq!(
        out.module,
        module(vec![
            ModuleItem::Stmt(Stmt::Expr(call(ident("run"), vec![]))),
            export(vec![("kept", None)]),
            ModuleItem::Stmt(Stmt::Expr(call(ident("stop"), vec![]))),
            ModuleItem::ExportDefault(number(3)),
        ])
    );
    assert_eq!(out.warnings, vec![Warning::OpaqueDefaultExport]);
}

#[test]
fn of_several_identifier_exports_the_last_one_stays() {
    let m = module(vec![
        assign(module_exports(), ident("foo")),
        assign(module_exports(), ident("bar")),
    ]);
    let out = transform_module_exports_ident_to_named_export(&m).unwrap();
    assert_eq!(
        out.module,
        module(vec![export(vec![("bar", None)]), ModuleItem::ExportDefault(ident("bar"))])
    );
    assert!(out.warnings.is_empty());
    let twice = module(vec![
        assign(module_exports(), ident("foo")),
        assign(module_exports(), ident("foo")),
    ]);
    let out = transform_module_exports_ident_to_named_export(&twice).unwrap();
    assert_eq!(
        out.module,
        module(vec![export(vec![("foo", None)]), ModuleItem::ExportDefault(ident("foo"))])
    );
}

#[test]
fn a_value_after_an_identifier_is_the_one_default_export() {
    let items =
        || vec![assign(module_exports(), ident("foo")), assign(module_exports(), number(42))];
    let out = transform_module_exports_ident_to_named_export(&module(items())).unwrap();
    assert_eq!(out.module, module(vec![assign(module_exports(), number(42))]));
    assert!(out.warnings.is_empty());
    let expected = module(vec![ModuleItem::ExportDefault(number(42))]);
    let out = transform_exports(&module(items())).unwrap();
    assert_eq!(out.module, expected);
    assert_eq!(out.warnings, vec![Warning::OpaqueDefaultExport]);
    let out = cjs_to_esm(&module(items())).unwrap();
    assert_eq!(out.module, expected);
    assert_eq!(out.warnings, vec![Warning::OpaqueDefaultExport]);
}

#[test]
fn an_identifier_after_a_value_is_the_one_default_export() {
    let items =
        || vec![assign(module_exports(), number(42)), assign(module_exports(), ident("foo"))];
    let expected =
        module(vec![export(vec![("foo", None)]), ModuleItem::ExportDefault(ident("foo"))]);
    let out = transform_exports(&module(items())).unwrap();
    assert_eq!(out.module, expected);
    assert!(out.warnings.is_empty());
    let out = cjs_to_esm(&module(items())).unwrap();
    assert_eq!(out.module, expected);
    assert!(out.warnings.is_empty());
}

#[test]
fn a_module_with_a_default_export_gets_no_second_one() {
    let items = || {
        vec![ModuleItem::ExportDefault(ident("first")), assign(module_exports(), number(2))]
    };
    let out = transform_module_default_export(&module(items())).unwrap();
    assert_eq!(out.module, module(vec![ModuleItem::ExportDefault(ident("first"))]));
    assert!(out.warnings.is_empty());
    let named = module(vec![
        ModuleItem::ExportDefault(ident("first")),
        assign(module_exports(), ident("foo")),
    ]);
    let out = transform_module_exports_ident_to_named_export(&named).unwrap();
    assert_eq!(out.module, module(vec![ModuleItem::ExportDefault(ident("first"))]));
    assert!(out.warnings.is_empty());
}

#[test]
fn the_passes_together_leave_at_most_one_default_export() {
    let m = module(vec![
        assign(module_exports(), ident("a")),
        assign(module_exports(), Expr::Object(vec![spread(ident("s"))])),
        assign(module_exports(), number(1)),
        assign(module_exports(), ident("b")),
        assign(module_exports(), number(2)),
    ]);
    let out = cjs_to_esm(&m).unwrap();
    let defaults =
        out.module.body.iter().filter(|i| matches!(i, ModuleItem::ExportDefault(_))).count();
    assert_eq!(defaults, 1);
    assert_eq!(out.module, module(vec![ModuleItem::ExportDefault(number(2))]));
    assert_eq!(
        out.warnings,
        vec![Warning::ImpureDefaultExport, Warning::OpaqueDefaultExport]
    );
}

#[test]
fn a_module_without_a_default_assignment_draws_no_warning() {
    let items = || {
        vec![
            assign(member(ident("exports"), "foo"), number(1)),
            ModuleItem::Stmt(Stmt::Expr(call(ident("run"), vec![module_exports()]))),
        ]
    };
    let out = transform_module_default_export(&module(items())).unwrap();
    assert_eq!(out.module, module(items()));
    assert!(out.warnings.is_empty());
}

#[test]
fn an_empty_key_makes_the_export_impure() {
    let quoted_empty = || {
        vec![assign(module_exports(), Expr::Object(vec![quoted("", ident("x"))]))]
    };
    let out = transform_module_exports_object(&module(quoted_empty())).unwrap();
    assert_eq!(out.module, module(quoted_empty()));
    assert_eq!(out.warnings, vec![Warning::ImpureDefaultExport]);
    let empty = || vec![assign(module_exports(), Expr::Object(vec![key_value("", number(1))]))];
    let out = transform_module_exports_object(&module(empty())).unwrap();
    assert_eq!(out.module, module(empty()));
    assert_eq!(out.warnings, vec![Warning::ImpureDefaultExport]);
    let out = cjs_to_esm(&module(quoted_empty())).unwrap();
    assert_eq!(
        out.module,
        module(vec![ModuleItem::ExportDefault(Expr::Object(vec![quoted("", ident("x"))]))])
    );
    assert_eq!(
        out.warnings,
        vec![Warning::ImpureDefaultExport, Warning::OpaqueDefaultExport]
    );
}
