use cjs_to_esm::ast::{
    CallExpr, Expr, ImportDecl, ImportSpecifier, Key, MemberExpr, Module, ModuleItem,
    ObjectPatProp, Other, Part, Pat, Stmt, VarDecl, VarDeclKind, VarDeclarator,
};
use cjs_to_esm::transform_cjs::{
    cjs_to_esm, transform_imports, transform_require_expr_stmt,
    transform_require_expression_to_import, transform_require_ident_to_import,
    transform_require_pure_destructure_to_named_imports,
};
use cjs_to_esm::utils::RewriteError;

fn ident(name: &str) -> Expr {
    Expr::Ident(name.to_string())
}

fn string(value: &str) -> Expr {
    Expr::Str(value.to_string())
}

fn number(tag: u64) -> Expr {
    Expr::Other(Other { tag, parts: vec![] })
}

fn call(callee: Expr, args: Vec<Expr>) -> Expr {
    Expr::Call(CallExpr { callee: Box::new(callee), args })
}

fn require(src: &str) -> Expr {
    call(ident("require"), vec![string(src)])
}

fn member(obj: Expr, prop: &str) -> Expr {
    Expr::Member(MemberExpr { obj: Box::new(obj), prop: Key::Ident(prop.to_string()) })
}

fn statement(e: Expr) -> ModuleItem {
    ModuleItem::Stmt(Stmt::Expr(e))
}

fn declarator(name: &str, init: Expr) -> VarDeclarator {
    VarDeclarator { name: Pat::Ident(name.to_string()), init: Some(init) }
}

fn declaration(kind: VarDeclKind, decls: Vec<VarDeclarator>) -> Stmt {
    Stmt::Var(VarDecl { kind, decls })
}

fn constant(name: &str, init: Expr) -> ModuleItem {
    ModuleItem::Stmt(declaration(VarDeclKind::Const, vec![declarator(name, init)]))
}

fn destructured(props: Vec<ObjectPatProp>, init: Expr) -> ModuleItem {
    ModuleItem::Stmt(declaration(
        VarDeclKind::Const,
        vec![VarDeclarator { name: Pat::Object(props), init: Some(init) }],
    ))
}

fn shorthand(name: &str) -> ObjectPatProp {
    ObjectPatProp::Assign { name: name.to_string(), default_value: None }
}

fn defaulted(name: &str, value: Expr) -> ObjectPatProp {
    ObjectPatProp::Assign { name: name.to_string(), default_value: Some(value) }
}

fn renamed(key: &str, local: &str) -> ObjectPatProp {
    ObjectPatProp::KeyValue {
        key: Key::Ident(key.to_string()),
        value: Pat::Ident(local.to_string()),
    }
}

fn side_effect(src: &str) -> ModuleItem {
    ModuleItem::Import(ImportDecl { specifiers: vec![], src: src.to_string() })
}

fn namespace(local: &str, src: &str) -> ModuleItem {
    ModuleItem::Import(ImportDecl {
        specifiers: vec![ImportSpecifier::Namespace { local: local.to_string() }],
        src: src.to_string(),
    })
}

fn named(specifiers: Vec<(&str, Option<&str>)>, src: &str) -> ModuleItem {
    ModuleItem::Import(ImportDecl {
        specifiers: specifiers
            .into_iter()
            .map(|(local, imported)| ImportSpecifier::Named {
                local: local.to_string(),
                imported: imported.map(|s| s.to_string()),
            })
            .collect(),
        src: src.to_string(),
    })
}

fn module(body: Vec<ModuleItem>) -> Module {
    Module { body }
}

/// `{ <stmts> }` as a statement, with the host's handle 100.
fn block(stmts: Vec<Stmt>) -> Stmt {
    Stmt::Other(Other { tag: 100, parts: vec![Part::Block(stmts)] })
}

/// `if (<test>) <then>`, with the host's handle 200.
fn if_stmt(test: Expr, body: Stmt) -> Stmt {
    Stmt::Other(Other { tag: 200, parts: vec![Part::Expr(test), Part::Stmt(body)] })
}

#[test]
fn bare_requires_become_imports_in_order() {
    let m = module(vec![
        statement(require("a")),
        statement(require("b")),
        statement(require("c")),
    ]);
    let out = transform_require_expr_stmt(&m).unwrap();
    assert_eq!(out.module, module(vec![side_effect("a"), side_effect("b"), side_effect("c")]));
    assert!(out.warnings.is_empty());
}

#[test]
fn bare_requires_through_the_whole_cascade() {
    let m = module(vec![statement(require("a")), statement(require("b"))]);
    let out = cjs_to_esm(&m).unwrap();
    assert_eq!(out.module, module(vec![side_effect("a"), side_effect("b")]));
    assert!(out.warnings.is_empty());
}

#[test]
fn a_module_without_statements_stays_empty() {
    let out = transform_require_expr_stmt(&module(vec![])).unwrap();
    assert_eq!(out.module, module(vec![]));
}

#[test]
fn imports_go_to_the_head_and_other_statements_stay_in_order() {
    let m = module(vec![
        statement(call(ident("first"), vec![])),
        statement(require("a")),
        statement(call(ident("second"), vec![])),
        statement(require("b")),
    ]);
    let out = transform_require_expr_stmt(&m).unwrap();
    assert_eq!(
        out.module,
        module(vec![
            side_effect("a"),
            side_effect("b"),
            statement(call(ident("first"), vec![])),
            statement(call(ident("second"), vec![])),
        ])
    );
}

#[test]
fn a_bare_require_inside_a_block_leaves_the_block() {
    let m = module(vec![ModuleItem::Stmt(block(vec![
        Stmt::Expr(require("a")),
        Stmt::Expr(call(ident("run"), vec![])),
    ]))]);
    let out = transform_require_expr_stmt(&m).unwrap();
    assert_eq!(
        out.module,
        module(vec![
            side_effect("a"),
            ModuleItem::Stmt(block(vec![Stmt::Expr(call(ident("run"), vec![]))])),
        ])
    );
}

#[test]
fn a_bare_require_in_a_single_statement_position_leaves_an_empty_statement() {
    let m = module(vec![ModuleItem::Stmt(if_stmt(ident("flag"), Stmt::Expr(require("a"))))]);
    let out = transform_require_expr_stmt(&m).unwrap();
    assert_eq!(
        out.module,
        module(vec![side_effect("a"), ModuleItem::Stmt(if_stmt(ident("flag"), Stmt::Empty))])
    );
}

#[test]
fn a_dynamic_bare_require_is_fatal() {
    let m = module(vec![statement(call(ident("require"), vec![ident("name")]))]);
    assert_eq!(transform_require_expr_stmt(&m), Err(RewriteError::DynamicRequire));
    assert_eq!(cjs_to_esm(&m), Err(RewriteError::DynamicRequire));
}

#[test]
fn the_statement_pass_leaves_bound_requires_alone() {
    let m = module(vec![constant("foo", require("foo"))]);
    let out = transform_require_expr_stmt(&m).unwrap();
    assert_eq!(out.module, module(vec![constant("foo", require("foo"))]));
}

#[test]
fn an_ident_bound_require_becomes_a_namespace_import() {
    let m = module(vec![constant("foo", require("./foo"))]);
    let out = transform_require_ident_to_import(&m).unwrap();
    assert_eq!(out.module, module(vec![namespace("foo", "./foo")]));
    assert!(out.warnings.is_empty());
}

#[test]
fn the_other_declarators_of_the_declaration_stay() {
    let m = module(vec![ModuleItem::Stmt(declaration(
        VarDeclKind::Let,
        vec![
            declarator("one", number(1)),
            declarator("foo", require("foo")),
            declarator("two", number(2)),
            declarator("bar", require("bar")),
        ],
    ))]);
    let out = transform_require_ident_to_import(&m).unwrap();
    assert_eq!(
        out.module,
        module(vec![
            namespace("foo", "foo"),
            namespace("bar", "bar"),
            ModuleItem::Stmt(declaration(
                VarDeclKind::Let,
                vec![declarator("one", number(1)), declarator("two", number(2))],
            )),
        ])
    );
}

#[test]
fn a_declarator_without_a_value_stays() {
    let lone = || {
        ModuleItem::Stmt(declaration(
            VarDeclKind::Let,
            vec![VarDeclarator { name: Pat::Ident("x".to_string()), init: None }],
        ))
    };
    let out = transform_require_ident_to_import(&module(vec![lone()])).unwrap();
    assert_eq!(out.module, module(vec![lone()]));
    let out = transform_require_pure_destructure_to_named_imports(&module(vec![lone()])).unwrap();
    assert_eq!(out.module, module(vec![lone()]));
}

#[test]
fn a_dynamic_ident_bound_require_is_fatal() {
    let m = module(vec![constant("foo", call(ident("require"), vec![ident("name")]))]);
    assert_eq!(transform_require_ident_to_import(&m), Err(RewriteError::DynamicRequire));
}

#[test]
fn an_ident_bound_require_inside_a_block_is_hoisted() {
    let m = module(vec![ModuleItem::Stmt(block(vec![declaration(
        VarDeclKind::Const,
        vec![declarator("foo", require("foo"))],
    )]))]);
    let out = transform_require_ident_to_import(&m).unwrap();
    assert_eq!(
        out.module,
        module(vec![namespace("foo", "foo"), ModuleItem::Stmt(block(vec![]))])
    );
}

#[test]
fn a_pure_destructured_require_becomes_named_imports() {
    let m = module(vec![destructured(vec![shorthand("a"), renamed("b", "c")], require("x"))]);
    let out = transform_require_pure_destructure_to_named_imports(&m).unwrap();
    assert_eq!(out.module, module(vec![named(vec![("a", None), ("c", Some("b"))], "x")]));
    assert!(out.warnings.is_empty());
}

#[test]
fn a_pure_destructured_require_through_the_whole_cascade() {
    let m = module(vec![destructured(vec![shorthand("a"), renamed("b", "c")], require("x"))]);
    let out = cjs_to_esm(&m).unwrap();
    assert_eq!(out.module, module(vec![named(vec![("a", None), ("c", Some("b"))], "x")]));
}

#[test]
fn a_default_value_sends_the_declarator_to_the_fallback() {
    let pattern = || vec![defaulted("a", number(1))];
    let m = module(vec![destructured(pattern(), require("x"))]);
    let kept = transform_require_pure_destructure_to_named_imports(&m).unwrap();
    assert_eq!(kept.module, module(vec![destructured(pattern(), require("x"))]));
    let out = cjs_to_esm(&m).unwrap();
    assert_eq!(
        out.module,
        module(vec![namespace("_mod$1", "x"), destructured(pattern(), ident("_mod$1"))])
    );
}

#[test]
fn one_impure_property_rejects_the_whole_pattern() {
    let pattern = || vec![shorthand("a"), renamed("b", "c"), defaulted("d", ident("a"))];
    let m = module(vec![destructured(pattern(), require("x"))]);
    let out = transform_require_pure_destructure_to_named_imports(&m).unwrap();
    assert_eq!(out.module, module(vec![destructured(pattern(), require("x"))]));
}

#[test]
fn a_nested_pattern_rejects_the_whole_pattern() {
    let pattern = || {
        vec![ObjectPatProp::KeyValue {
            key: Key::Ident("a".to_string()),
            value: Pat::Object(vec![shorthand("b")]),
        }]
    };
    let m = module(vec![destructured(pattern(), require("x"))]);
    let out = transform_require_pure_destructure_to_named_imports(&m).unwrap();
    assert_eq!(out.module, module(vec![destructured(pattern(), require("x"))]));
}

#[test]
fn a_rest_element_rejects_the_whole_pattern() {
    let pattern = || {
        vec![
            shorthand("a"),
            ObjectPatProp::Other(Other {
                tag: 7,
                parts: vec![Part::Pat(Pat::Ident("rest".to_string()))],
            }),
        ]
    };
    let m = module(vec![destructured(pattern(), require("x"))]);
    let out = transform_require_pure_destructure_to_named_imports(&m).unwrap();
    assert_eq!(out.module, module(vec![destructured(pattern(), require("x"))]));
}

#[test]
fn a_quoted_or_computed_key_rejects_the_whole_pattern() {
    let quoted = || {
        vec![ObjectPatProp::KeyValue {
            key: Key::Str("a".to_string()),
            value: Pat::Ident("b".to_string()),
        }]
    };
    let m = module(vec![destructured(quoted(), require("x"))]);
    let out = transform_require_pure_destructure_to_named_imports(&m).unwrap();
    assert_eq!(out.module, module(vec![destructured(quoted(), require("x"))]));
    let computed = || {
        vec![ObjectPatProp::KeyValue {
            key: Key::Computed(Box::new(ident("k"))),
            value: Pat::Ident("b".to_string()),
        }]
    };
    let m = module(vec![destructured(computed(), require("x"))]);
    let out = transform_require_pure_destructure_to_named_imports(&m).unwrap();
    assert_eq!(out.module, module(vec![destructured(computed(), require("x"))]));
}

#[test]
fn the_destructuring_pass_leaves_an_ident_pattern_alone() {
    let m = module(vec![constant("foo", require("foo"))]);
    let out = transform_require_pure_destructure_to_named_imports(&m).unwrap();
    assert_eq!(out.module, module(vec![constant("foo", require("foo"))]));
}

#[test]
fn the_destructuring_pass_meets_a_dynamic_require_under_any_pattern() {
    let m = module(vec![constant("foo", call(ident("require"), vec![ident("name")]))]);
    assert_eq!(
        transform_require_pure_destructure_to_named_imports(&m),
        Err(RewriteError::DynamicRequire)
    );
}

#[test]
fn an_empty_pattern_becomes_an_import_without_specifiers() {
    let m = module(vec![destructured(vec![], require("x"))]);
    let out = transform_require_pure_destructure_to_named_imports(&m).unwrap();
    assert_eq!(out.module, module(vec![side_effect("x")]));
}

#[test]
fn a_member_of_a_require_goes_through_a_synthetic_import() {
    let m = module(vec![constant("bar", member(require("foo"), "bar"))]);
    let out = transform_require_expression_to_import(&m).unwrap();
    assert_eq!(
        out.module,
        module(vec![namespace("_mod$1", "foo"), constant("bar", member(ident("_mod$1"), "bar"))])
    );
    assert!(out.warnings.is_empty());
}

#[test]
fn synthetic_imports_are_numbered_in_source_order() {
    let m = module(vec![
        constant("bar", member(require("foo"), "bar")),
        statement(call(member(require("baz"), "run"), vec![require("arg")])),
    ]);
    let out = transform_require_expression_to_import(&m).unwrap();
    assert_eq!(
        out.module,
        module(vec![
            namespace("_mod$1", "foo"),
            namespace("_mod$2", "baz"),
            namespace("_mod$3", "arg"),
            constant("bar", member(ident("_mod$1"), "bar")),
            statement(call(member(ident("_mod$2"), "run"), vec![ident("_mod$3")])),
        ])
    );
}

#[test]
fn the_fallback_reaches_into_uninterpreted_syntax() {
    let arrow = |body: Expr| Expr::Other(Other { tag: 300, parts: vec![Part::Expr(body)] });
    let m = module(vec![constant("f", arrow(member(require("foo"), "bar")))]);
    let out = transform_require_expression_to_import(&m).unwrap();
    assert_eq!(
        out.module,
        module(vec![
            namespace("_mod$1", "foo"),
            constant("f", arrow(member(ident("_mod$1"), "bar"))),
        ])
    );
}

#[test]
fn the_fallback_takes_a_require_in_any_position() {
    let m = module(vec![statement(call(ident("use"), vec![require("foo")]))]);
    let out = transform_require_expression_to_import(&m).unwrap();
    assert_eq!(
        out.module,
        module(vec![
            namespace("_mod$1", "foo"),
            statement(call(ident("use"), vec![ident("_mod$1")])),
        ])
    );
}

#[test]
fn a_dynamic_require_in_an_expression_is_fatal_for_the_fallback() {
    let m = module(vec![constant("bar", member(call(ident("require"), vec![ident("n")]), "bar"))]);
    assert_eq!(transform_require_expression_to_import(&m), Err(RewriteError::DynamicRequire));
    assert_eq!(transform_imports(&m), Err(RewriteError::DynamicRequire));
}

#[test]
fn the_earlier_passes_do_not_look_into_expressions() {
    let m = module(vec![constant("bar", member(call(ident("require"), vec![ident("n")]), "bar"))]);
    assert!(transform_require_expr_stmt(&m).is_ok());
    assert!(transform_require_ident_to_import(&m).is_ok());
    assert!(transform_require_pure_destructure_to_named_imports(&m).is_ok());
}

#[test]
fn each_pass_puts_its_imports_ahead_of_those_before_it() {
    let m = module(vec![
        statement(require("side")),
        constant("ns", require("ns")),
        destructured(vec![shorthand("a")], require("named")),
        constant("bar", member(require("foo"), "bar")),
    ]);
    let out = transform_imports(&m).unwrap();
    assert_eq!(
        out.module,
        module(vec![
            namespace("_mod$1", "foo"),
            named(vec![("a", None)], "named"),
            namespace("ns", "ns"),
            side_effect("side"),
            constant("bar", member(ident("_mod$1"), "bar")),
        ])
    );
}

#[test]
fn bare_requires_among_other_items_through_the_whole_cascade() {
    let m = module(vec![
        statement(call(ident("first"), vec![])),
        statement(require("a")),
        side_effect("kept"),
        statement(require("b")),
        constant("two", number(2)),
        statement(require("a")),
    ]);
    let expected = module(vec![
        side_effect("a"),
        side_effect("b"),
        side_effect("a"),
        statement(call(ident("first"), vec![])),
        side_effect("kept"),
        constant("two", number(2)),
    ]);
    let out = transform_require_expr_stmt(&m).unwrap();
    assert_eq!(out.module, expected);
    assert!(out.warnings.is_empty());
    let out = cjs_to_esm(&m).unwrap();
    assert_eq!(out.module, expected);
    assert!(out.warnings.is_empty());
}

#[test]
fn ident_bound_requires_of_several_declarations_come_to_the_head_in_order() {
    let m = module(vec![
        statement(call(ident("start"), vec![])),
        constant("a", require("a")),
        ModuleItem::Stmt(declaration(
            VarDeclKind::Let,
            vec![
                declarator("one", number(1)),
                declarator("b", require("b")),
                declarator("c", require("c")),
            ],
        )),
        side_effect("kept"),
        constant("d", require("d")),
    ]);
    let out = transform_require_ident_to_import(&m).unwrap();
    assert_eq!(
        out.module,
        module(vec![
            namespace("a", "a"),
            namespace("b", "b"),
            namespace("c", "c"),
            namespace("d", "d"),
            statement(call(ident("start"), vec![])),
            ModuleItem::Stmt(declaration(VarDeclKind::Let, vec![declarator("one", number(1))])),
            side_effect("kept"),
        ])
    );
    assert!(out.warnings.is_empty());
}
