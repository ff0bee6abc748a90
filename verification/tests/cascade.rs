use cjs_to_esm::ast::{
    AssignExpr, CallExpr, Expr, ExportSpecifier, ImportDecl, ImportSpecifier, Key, MemberExpr,
    Module, ModuleItem, NamedExport, ObjectPatProp, Other, Part, Pat, Prop, Stmt, VarDecl,
    VarDeclKind, VarDeclarator,
};
use cjs_to_esm::transform_cjs::{
    cjs_to_esm, transform_exports, transform_imports, transform_module_default_export,
    transform_module_exports_ident_to_named_export, transform_module_exports_named_expression,
    transform_module_exports_object, transform_require_expr_stmt,
    transform_require_expression_to_import, transform_require_ident_to_import,
    transform_require_pure_destructure_to_named_imports,
};
use cjs_to_esm::traverse::{flush_pending, has_default_export, visit_mut_module, Output};
use cjs_to_esm::utils::RewriteError;
use cjs_to_esm::visitors::{
    DefaultExport, DefaultFinding, Pass, Pending, TransformExportDefaultObject,
    TransformModuleDefaultExport, TransformModuleExportsIdentVisitor,
    TransformModuleExportsNamedExprVisitor,
    TransformPureDestructuredRequireVisitor, TransformRequireFallback,
    TransformRequireIdentVisitor, TransformRequireStatementVistor, Warning,
};

fn ident(name: &str) -> Expr {
    Expr::Ident(name.to_string())
}

fn string(value: &str) -> Expr {
    Expr::Str(value.to_string())
}

fn number(tag: u64) -> Expr {
    Expr::Other(Other { tag, parts: vec![] })
}

fn call(callee: Expr, args: Vec<Expr>) -> Expr {
    Expr::Call(CallExpr { callee: Box::new(callee), args })
}

fn require(src: &str) -> Expr {
    call(ident("require"), vec![string(src)])
}

fn member(obj: Expr, prop: &str) -> Expr {
    Expr::Member(MemberExpr { obj: Box::new(obj), prop: Key::Ident(prop.to_string()) })
}

fn assignment(target: Expr, value: Expr) -> Expr {
    Expr::Assign(AssignExpr { left: Pat::Expr(Box::new(target)), right: Box::new(value) })
}

fn module_exports() -> Expr {
    member(ident("module"), "exports")
}

fn statement(e: Expr) -> ModuleItem {
    ModuleItem::Stmt(Stmt::Expr(e))
}

fn declarator(name: &str, init: Expr) -> VarDeclarator {
    VarDeclarator { name: Pat::Ident(name.to_string()), init: Some(init) }
}

fn constant(name: &str, init: Expr) -> ModuleItem {
    ModuleItem::Stmt(Stmt::Var(VarDecl {
        kind: VarDeclKind::Const,
        decls: vec![declarator(name, init)],
    }))
}

fn namespace(local: &str, src: &str) -> ModuleItem {
    ModuleItem::Import(ImportDecl {
        specifiers: vec![ImportSpecifier::Namespace { local: local.to_string() }],
        src: src.to_string(),
    })
}

fn side_effect(src: &str) -> ModuleItem {
    ModuleItem::Import(ImportDecl { specifiers: vec![], src: src.to_string() })
}

fn export(specifiers: Vec<(&str, Option<&str>)>) -> ModuleItem {
    ModuleItem::ExportNamed(NamedExport {
        specifiers: specifiers
            .into_iter()
            .map(|(orig, exported)| ExportSpecifier {
                orig: orig.to_string(),
                exported: exported.map(|s| s.to_string()),
            })
            .collect(),
    })
}

fn module(body: Vec<ModuleItem>) -> Module {
    Module { body }
}

/// `function <name>() { <body> }`, with the host's handle 600.
fn function(body: Vec<Stmt>) -> Stmt {
    Stmt::Other(Other { tag: 600, parts: vec![Part::Block(body)] })
}

fn commonjs_module() -> Module {
    module(vec![
        statement(require("./setup")),
        constant("fs", require("fs")),
        ModuleItem::Stmt(Stmt::Var(VarDecl {
            kind: VarDeclKind::Const,
            decls: vec![VarDeclarator {
                name: Pat::Object(vec![
                    ObjectPatProp::Assign { name: "join".to_string(), default_value: None },
                    ObjectPatProp::KeyValue {
                        key: Key::Ident("resolve".to_string()),
                        value: Pat::Ident("res".to_string()),
                    },
                ]),
                init: Some(require("path")),
            }],
        })),
        constant("ver", member(require("./package"), "version")),
        statement(call(ident("main"), vec![ident("fs"), ident("join")])),
        statement(assignment(member(ident("exports"), "version"), ident("ver"))),
        statement(assignment(member(module_exports(), "count"), number(3))),
        statement(assignment(
            module_exports(),
            Expr::Object(vec![
                Prop::Shorthand("main".to_string()),
                Prop::KeyValue { key: Key::Ident("go".to_string()), value: ident("main") },
                Prop::KeyValue {
                    key: Key::Ident("answer".to_string()),
                    value: number(42),
                },
            ]),
        )),
    ])
}

fn esm_module() -> Module {
    module(vec![
        namespace("_mod$1", "./package"),
        ModuleItem::Import(ImportDecl {
            specifiers: vec![
                ImportSpecifier::Named { local: "join".to_string(), imported: None },
                ImportSpecifier::Named {
                    local: "res".to_string(),
                    imported: Some("resolve".to_string()),
                },
            ],
            src: "path".to_string(),
        }),
        namespace("fs", "fs"),
        side_effect("./setup"),
        constant("ver", member(ident("_mod$1"), "version")),
        statement(call(ident("main"), vec![ident("fs"), ident("join")])),
        export(vec![("ver", Some("version"))]),
        ModuleItem::ExportConst { name: "count".to_string(), init: number(3) },
        constant("_answer$1", number(42)),
        export(vec![("main", None), ("main", Some("go")), ("_answer$1", Some("answer"))]),
    ])
}

#[test]
fn the_cascade_rewrites_a_commonjs_module() {
    let out = cjs_to_esm(&commonjs_module()).unwrap();
    assert_eq!(out.module, esm_module());
    assert!(out.warnings.is_empty());
}

#[test]
fn the_cascade_is_the_import_passes_and_then_the_export_passes() {
    let imported = transform_imports(&commonjs_module()).unwrap();
    let exported = transform_exports(&imported.module).unwrap();
    assert_eq!(exported.module, esm_module());
}

#[test]
fn the_cascade_is_the_eight_passes_in_their_order() {
    let m = commonjs_module();
    let m = transform_require_expr_stmt(&m).unwrap().module;
    let m = transform_require_ident_to_import(&m).unwrap().module;
    let m = transform_require_pure_destructure_to_named_imports(&m).unwrap().module;
    let m = transform_require_expression_to_import(&m).unwrap().module;
    let m = transform_module_exports_ident_to_named_export(&m).unwrap().module;
    let m = transform_module_exports_named_expression(&m).unwrap().module;
    let m = transform_module_exports_object(&m).unwrap().module;
    let m = transform_module_default_export(&m).unwrap().module;
    assert_eq!(m, esm_module());
}

#[test]
fn the_cascade_on_its_own_output_changes_nothing() {
    let again = cjs_to_esm(&esm_module()).unwrap();
    assert_eq!(again.module, esm_module());
    assert!(again.warnings.is_empty());
}

#[test]
fn a_second_run_has_nothing_to_warn_about() {
    let object = || {
        Expr::Object(vec![Prop::Other(Other { tag: 500, parts: vec![Part::Expr(ident("rest"))] })])
    };
    let m = module(vec![
        statement(assignment(module_exports(), object())),
        statement(assignment(member(ident("exports"), "kept"), Expr::Object(vec![]))),
        statement(call(ident("require"), vec![])),
    ]);
    let first = cjs_to_esm(&m).unwrap();
    assert_eq!(
        first.warnings,
        vec![Warning::ImpureDefaultExport, Warning::OpaqueDefaultExport]
    );
    assert_eq!(
        first.module,
        module(vec![
            statement(assignment(member(ident("exports"), "kept"), Expr::Object(vec![]))),
            statement(call(ident("require"), vec![])),
            ModuleItem::ExportDefault(object()),
        ])
    );
    let second = cjs_to_esm(&first.module).unwrap();
    assert_eq!(second.module, first.module);
    assert!(second.warnings.is_empty());
}

#[test]
fn every_pass_leaves_an_esm_module_as_it_is() {
    let passes = [
        Pass::RequireStatement,
        Pass::RequireIdent,
        Pass::PureDestructuredRequire,
        Pass::RequireFallback,
        Pass::ModuleExportsIdent,
        Pass::ModuleExportsNamedExpr,
        Pass::ExportDefaultObject,
        Pass::ModuleDefaultExport,
    ];
    for pass in passes {
        let out = visit_mut_module(pass, &esm_module()).unwrap();
        assert_eq!(out, Output { module: esm_module(), warnings: vec![] });
    }
}

#[test]
fn an_empty_module_stays_empty() {
    let out = cjs_to_esm(&module(vec![])).unwrap();
    assert_eq!(out, Output { module: module(vec![]), warnings: vec![] });
}

#[test]
fn empty_statements_leave_every_statement_list() {
    let m = module(vec![
        ModuleItem::Stmt(Stmt::Empty),
        ModuleItem::Stmt(function(vec![
            Stmt::Empty,
            Stmt::Expr(call(ident("run"), vec![])),
            Stmt::Empty,
        ])),
        ModuleItem::Stmt(Stmt::Empty),
    ]);
    let out = transform_require_expr_stmt(&m).unwrap();
    assert_eq!(
        out.module,
        module(vec![ModuleItem::Stmt(function(vec![Stmt::Expr(call(ident("run"), vec![]))]))])
    );
}

#[test]
fn a_declaration_without_declarators_leaves_its_statement_list() {
    let m = module(vec![
        ModuleItem::Stmt(Stmt::Var(VarDecl { kind: VarDeclKind::Var, decls: vec![] })),
        statement(call(ident("run"), vec![])),
    ]);
    let out = transform_module_default_export(&m).unwrap();
    assert_eq!(out.module, module(vec![statement(call(ident("run"), vec![]))]));
}

#[test]
fn an_empty_statement_in_a_single_statement_position_stays() {
    let lone = || {
        module(vec![ModuleItem::Stmt(Stmt::Other(Other {
            tag: 200,
            parts: vec![Part::Expr(ident("flag")), Part::Stmt(Stmt::Empty)],
        }))])
    };
    let out = cjs_to_esm(&lone()).unwrap();
    assert_eq!(out.module, lone());
}

#[test]
fn rules_apply_inside_function_bodies() {
    let m = module(vec![ModuleItem::Stmt(function(vec![
        Stmt::Expr(require("lazy")),
        Stmt::Expr(assignment(module_exports(), ident("late"))),
    ]))]);
    let out = cjs_to_esm(&m).unwrap();
    assert_eq!(
        out.module,
        module(vec![
            side_effect("lazy"),
            ModuleItem::Stmt(function(vec![])),
            export(vec![("late", None)]),
            ModuleItem::ExportDefault(ident("late")),
        ])
    );
}

#[test]
fn uninterpreted_syntax_keeps_its_handle_and_the_sort_of_each_part() {
    let wrapped = |inner: Expr| {
        module(vec![ModuleItem::Other(Other {
            tag: 77,
            parts: vec![
                Part::Pat(Pat::Ident("x".to_string())),
                Part::Expr(inner),
                Part::Stmt(Stmt::Empty),
                Part::Block(vec![]),
            ],
        })])
    };
    let out = cjs_to_esm(&wrapped(member(require("a"), "b"))).unwrap();
    assert_eq!(
        out.module,
        Module {
            body: vec![namespace("_mod$1", "a")]
                .into_iter()
                .chain(wrapped(member(ident("_mod$1"), "b")).body)
                .collect()
        }
    );
}

#[test]
fn a_fatal_require_ends_the_cascade_whatever_else_the_module_holds() {
    let m = module(vec![
        statement(require("a")),
        statement(assignment(module_exports(), number(1))),
        constant("x", member(call(ident("require"), vec![ident("dynamic")]), "y")),
    ]);
    assert_eq!(cjs_to_esm(&m), Err(RewriteError::DynamicRequire));
}

#[test]
fn the_export_passes_do_not_look_at_requires() {
    let m = module(vec![statement(call(ident("require"), vec![ident("dynamic")]))]);
    assert!(transform_exports(&m).is_ok());
}

#[test]
fn matches_of_one_pass_are_flushed_in_source_order() {
    let m = module(vec![
        statement(assignment(member(ident("exports"), "a"), number(1))),
        ModuleItem::Stmt(function(vec![Stmt::Expr(assignment(
            member(ident("exports"), "b"),
            ident("c"),
        ))])),
        statement(assignment(member(ident("exports"), "d"), ident("d"))),
    ]);
    let out = transform_module_exports_named_expression(&m).unwrap();
    assert_eq!(
        out.module,
        module(vec![
            ModuleItem::Stmt(function(vec![])),
            ModuleItem::ExportConst { name: "a".to_string(), init: number(1) },
            export(vec![("c", Some("b"))]),
            export(vec![("d", None)]),
        ])
    );
}

#[test]
fn a_pass_over_two_halves_records_what_it_records_for_each() {
    let first = || vec![statement(require("a")), statement(call(ident("f"), vec![]))];
    let rest = || vec![statement(require("b")), statement(require("c"))];
    let whole: Vec<ModuleItem> = first().into_iter().chain(rest()).collect();
    let out = transform_require_expr_stmt(&module(whole)).unwrap();
    let one = transform_require_expr_stmt(&module(first())).unwrap();
    let two = transform_require_expr_stmt(&module(rest())).unwrap();
    assert_eq!(one.module, module(vec![side_effect("a"), statement(call(ident("f"), vec![]))]));
    assert_eq!(two.module, module(vec![side_effect("b"), side_effect("c")]));
    assert_eq!(
        out.module,
        module(vec![
            side_effect("a"),
            side_effect("b"),
            side_effect("c"),
            statement(call(ident("f"), vec![])),
        ])
    );
}

#[test]
fn each_pass_object_runs_its_pass() {
    let m = commonjs_module();
    let m = TransformRequireStatementVistor::new().visit_mut_module(&m).unwrap().module;
    let m = TransformRequireIdentVisitor::new().visit_mut_module(&m).unwrap().module;
    let m = TransformPureDestructuredRequireVisitor::new().visit_mut_module(&m).unwrap().module;
    let m = TransformRequireFallback::new().visit_mut_module(&m).unwrap().module;
    let m = TransformModuleExportsIdentVisitor::new().visit_mut_module(&m).unwrap().module;
    let m = TransformModuleExportsNamedExprVisitor::new().visit_mut_module(&m).unwrap().module;
    let m = TransformExportDefaultObject::new().visit_mut_module(&m).unwrap().module;
    let m = TransformModuleDefaultExport::new().visit_mut_module(&m).unwrap().module;
    assert_eq!(m, esm_module());
}

#[test]
fn a_fresh_context_is_empty() {
    let ctx = Pending::new();
    assert!(ctx.imports.is_empty());
    assert!(ctx.decls.is_empty());
    assert!(ctx.exports.is_empty());
    assert_eq!(ctx.default_export, DefaultFinding::Unset);
    assert!(ctx.warnings.is_empty());
    assert_eq!(ctx.issued(), 0);
}

#[test]
fn the_statement_rule_records_an_import_and_leaves_an_empty_statement() {
    let mut ctx = Pending::new();
    let r = TransformRequireStatementVistor::new().visit_mut_expr_stmt(&mut ctx, require("a"));
    assert_eq!(r, Ok(Stmt::Empty));
    assert_eq!(ctx.imports, vec![ImportDecl { specifiers: vec![], src: "a".to_string() }]);
    let r = TransformRequireStatementVistor::new().visit_mut_expr_stmt(&mut ctx, ident("a"));
    assert_eq!(r, Ok(Stmt::Expr(ident("a"))));
    assert_eq!(ctx.imports.len(), 1);
}

#[test]
fn the_declarator_rules_take_the_declarator_away() {
    let mut ctx = Pending::new();
    let r = TransformRequireIdentVisitor::new()
        .visit_mut_var_declarator(&mut ctx, declarator("foo", require("foo")));
    assert_eq!(r, Ok(None));
    let r = TransformRequireIdentVisitor::new()
        .visit_mut_var_declarator(&mut ctx, declarator("bar", number(1)));
    assert_eq!(r, Ok(Some(declarator("bar", number(1)))));
    let pattern = VarDeclarator {
        name: Pat::Object(vec![ObjectPatProp::Assign {
            name: "a".to_string(),
            default_value: None,
        }]),
        init: Some(require("x")),
    };
    let r = TransformPureDestructuredRequireVisitor::new()
        .visit_mut_var_declarator(&mut ctx, pattern);
    assert_eq!(r, Ok(None));
    assert_eq!(ctx.imports.len(), 2);
    assert_eq!(ctx.issued(), 2);
}

#[test]
fn the_fallback_rule_counts_from_what_is_pending() {
    let mut ctx = Pending::new();
    let fallback = TransformRequireFallback::new();
    assert_eq!(fallback.visit_mut_expr(&mut ctx, require("a")), Ok(ident("_mod$1")));
    assert_eq!(fallback.visit_mut_expr(&mut ctx, ident("b")), Ok(ident("b")));
    assert_eq!(fallback.visit_mut_expr(&mut ctx, require("c")), Ok(ident("_mod$2")));
    assert_eq!(
        fallback.visit_mut_expr(&mut ctx, call(ident("require"), vec![ident("d")])),
        Err(RewriteError::DynamicRequire)
    );
    assert_eq!(ctx.issued(), 2);
}

#[test]
fn the_export_rules_record_their_declarations() {
    let mut ctx = Pending::new();
    let r = TransformModuleExportsIdentVisitor::new()
        .visit_mut_assign_expr(&mut ctx, assignment(module_exports(), ident("foo")));
    assert_eq!(r, Ok(Stmt::Empty));
    let r = TransformModuleExportsNamedExprVisitor::new()
        .visit_mut_assign_expr(&mut ctx, assignment(member(ident("exports"), "n"), number(1)));
    assert_eq!(r, Ok(Stmt::Empty));
    assert_eq!(
        ctx.default_export,
        DefaultFinding::Found(DefaultExport::Named("foo".to_string()))
    );
    let r = TransformModuleDefaultExport::new()
        .visit_mut_assign_expr(&mut ctx, assignment(module_exports(), number(2)));
    assert_eq!(r, Ok(Stmt::Empty));
    assert_eq!(
        ctx.exports,
        vec![ModuleItem::ExportConst { name: "n".to_string(), init: number(1) }]
    );
    assert_eq!(ctx.default_export, DefaultFinding::Found(DefaultExport::Value(number(2))));
    let r = TransformModuleDefaultExport::new()
        .visit_mut_assign_expr(&mut ctx, assignment(module_exports(), number(3)));
    assert_eq!(r, Ok(Stmt::Empty));
    assert_eq!(ctx.default_export, DefaultFinding::Found(DefaultExport::Value(number(3))));
    assert!(ctx.warnings.is_empty());
}

#[test]
fn the_identifier_rule_defers_to_a_later_value() {
    let mut ctx = Pending::new();
    let by_name = TransformModuleExportsIdentVisitor::new();
    let r = by_name.visit_mut_assign_expr(&mut ctx, assignment(module_exports(), ident("foo")));
    assert_eq!(r, Ok(Stmt::Empty));
    let later = assignment(module_exports(), number(7));
    let r = by_name.visit_mut_assign_expr(&mut ctx, assignment(module_exports(), number(7)));
    assert_eq!(r, Ok(Stmt::Expr(later)));
    assert_eq!(ctx.default_export, DefaultFinding::Deferred);
    let r = by_name.visit_mut_assign_expr(&mut ctx, assignment(module_exports(), ident("bar")));
    assert_eq!(r, Ok(Stmt::Empty));
    assert_eq!(
        ctx.default_export,
        DefaultFinding::Found(DefaultExport::Named("bar".to_string()))
    );
    let elsewhere = assignment(member(ident("exports"), "n"), number(1));
    let r = by_name
        .visit_mut_assign_expr(&mut ctx, assignment(member(ident("exports"), "n"), number(1)));
    assert_eq!(r, Ok(Stmt::Expr(elsewhere)));
    assert_eq!(
        ctx.default_export,
        DefaultFinding::Found(DefaultExport::Named("bar".to_string()))
    );
}

#[test]
fn the_object_rule_tells_pure_from_impure() {
    let object = TransformExportDefaultObject::new();
    assert!(object.is_pure_object(&vec![
        Prop::Shorthand("a".to_string()),
        Prop::KeyValue { key: Key::Str("b".to_string()), value: number(1) },
    ]));
    assert!(!object.is_pure_object(&vec![Prop::KeyValue {
        key: Key::Str("not-a-name".to_string()),
        value: number(1),
    }]));
    assert!(!object.is_pure_object(&vec![Prop::Other(Other { tag: 1, parts: vec![] })]));
    let mut ctx = Pending::new();
    let specifiers = object.expand(
        &mut ctx,
        vec![Prop::KeyValue { key: Key::Ident("k".to_string()), value: number(1) }],
    );
    assert_eq!(
        specifiers,
        vec![ExportSpecifier { orig: "_k$1".to_string(), exported: Some("k".to_string()) }]
    );
    assert_eq!(ctx.decls, vec![declarator("_k$1", number(1))]);
}

#[test]
fn a_recorded_default_export_takes_the_place_of_the_one_before() {
    let mut ctx = Pending::new();
    ctx.set_default_export(DefaultExport::Value(number(1)));
    assert_eq!(ctx.default_export, DefaultFinding::Found(DefaultExport::Value(number(1))));
    ctx.set_default_export(DefaultExport::Named("foo".to_string()));
    assert_eq!(
        ctx.default_export,
        DefaultFinding::Found(DefaultExport::Named("foo".to_string()))
    );
    ctx.defer_default_export();
    assert_eq!(ctx.default_export, DefaultFinding::Deferred);
    assert!(ctx.exports.is_empty());
    assert!(ctx.warnings.is_empty());
}

#[test]
fn a_body_is_searched_for_a_default_export_at_its_top_level() {
    assert!(!has_default_export(&vec![]));
    assert!(!has_default_export(&vec![
        statement(ident("a")),
        export(vec![("a", None)]),
        statement(assignment(module_exports(), number(1))),
    ]));
    assert!(has_default_export(&vec![
        statement(ident("a")),
        ModuleItem::ExportDefault(number(1)),
        statement(ident("b")),
    ]));
}

#[test]
fn the_pending_default_export_is_put_last_unless_the_body_holds_one() {
    let mut ctx = Pending::new();
    ctx.set_default_export(DefaultExport::Named("foo".to_string()));
    let out = flush_pending(vec![statement(ident("a"))], ctx);
    assert_eq!(
        out.module,
        module(vec![
            statement(ident("a")),
            export(vec![("foo", None)]),
            ModuleItem::ExportDefault(ident("foo")),
        ])
    );
    assert!(out.warnings.is_empty());
    let mut ctx = Pending::new();
    ctx.set_default_export(DefaultExport::Value(number(1)));
    let out = flush_pending(vec![], ctx);
    assert_eq!(out.module, module(vec![ModuleItem::ExportDefault(number(1))]));
    assert_eq!(out.warnings, vec![Warning::OpaqueDefaultExport]);
    let mut ctx = Pending::new();
    ctx.set_default_export(DefaultExport::Value(number(1)));
    let out = flush_pending(vec![ModuleItem::ExportDefault(number(0))], ctx);
    assert_eq!(out.module, module(vec![ModuleItem::ExportDefault(number(0))]));
    assert!(out.warnings.is_empty());
    let mut ctx = Pending::new();
    ctx.defer_default_export();
    let out = flush_pending(vec![statement(ident("a"))], ctx);
    assert_eq!(out.module, module(vec![statement(ident("a"))]));
    assert!(out.warnings.is_empty());
}
