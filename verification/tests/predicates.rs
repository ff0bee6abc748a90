use cjs_to_esm::ast::{AssignExpr, CallExpr, Expr, Key, MemberExpr, Other, Pat};
use cjs_to_esm::names::synthetic_ident;
use cjs_to_esm::utils::{
    exported_property, if_export_default, if_require_call_expr, is_identifier_char,
    is_module_exports_target, is_valid_identifier, require_source, same_name,
    targets_module_exports, RewriteError,
};
use cjs_to_esm::visitors::is_exportable;

fn ident(name: &str) -> Expr {
    Expr::Ident(name.to_string())
}

fn string(value: &str) -> Expr {
    Expr::Str(value.to_string())
}

fn number(tag: u64) -> Expr {
    Expr::Other(Other { tag, parts: vec![] })
}

fn call(callee: Expr, args: Vec<Expr>) -> Expr {
    Expr::Call(CallExpr { callee: Box::new(callee), args })
}

fn member(obj: Expr, prop: &str) -> Expr {
    Expr::Member(MemberExpr { obj: Box::new(obj), prop: Key::Ident(prop.to_string()) })
}

fn computed(obj: Expr, prop: Expr) -> Expr {
    Expr::Member(MemberExpr { obj: Box::new(obj), prop: Key::Computed(Box::new(prop)) })
}

fn assignment(target: Expr, value: Expr) -> AssignExpr {
    AssignExpr { left: Pat::Expr(Box::new(target)), right: Box::new(value) }
}

#[test]
fn plain_names_are_valid_identifiers() {
    assert!(is_valid_identifier("foo"));
    assert!(is_valid_identifier("fooBar9"));
    assert!(is_valid_identifier("_private"));
    assert!(is_valid_identifier("$"));
    assert!(is_valid_identifier("_a$1"));
}

#[test]
fn letters_outside_ascii_are_valid() {
    assert!(is_valid_identifier("ñandú"));
    assert!(is_valid_identifier("变量"));
}

#[test]
fn a_leading_numeral_is_rejected() {
    assert!(!is_valid_identifier("1abc"));
    assert!(!is_valid_identifier("9"));
    assert!(!is_valid_identifier("٣x"));
}

#[test]
fn a_numeral_after_the_start_is_accepted() {
    assert!(is_valid_identifier("a1"));
    assert!(is_valid_identifier("_1"));
}

#[test]
fn punctuation_and_blanks_are_rejected() {
    assert!(!is_valid_identifier("a-b"));
    assert!(!is_valid_identifier("a b"));
    assert!(!is_valid_identifier("a.b"));
    assert!(!is_valid_identifier("a!"));
    assert!(!is_valid_identifier(" a"));
}

#[test]
fn the_empty_name_has_nothing_to_reject() {
    assert!(is_valid_identifier(""));
}

#[test]
fn identifier_chars_by_class() {
    assert!(is_identifier_char('a', true));
    assert!(is_identifier_char('_', false));
    assert!(is_identifier_char('$', false));
    assert!(!is_identifier_char('-', false));
    assert!(!is_identifier_char(' ', false));
}

#[test]
fn names_compare_by_text() {
    assert!(same_name("require", "require"));
    assert!(!same_name("require", "Require"));
    assert!(!same_name("require", "require2"));
    assert!(same_name("", ""));
}

#[test]
fn require_of_a_literal_gives_its_source() {
    let e = call(ident("require"), vec![string("./foo")]);
    assert_eq!(require_source(&e), Ok(Some("./foo".to_string())));
}

#[test]
fn require_of_an_identifier_is_fatal() {
    let e = call(ident("require"), vec![ident("path")]);
    assert_eq!(require_source(&e), Err(RewriteError::DynamicRequire));
}

#[test]
fn require_of_a_number_is_fatal() {
    let e = call(ident("require"), vec![number(1)]);
    assert_eq!(require_source(&e), Err(RewriteError::DynamicRequire));
}

#[test]
fn require_of_a_computed_path_is_fatal() {
    let e = call(ident("require"), vec![call(ident("join"), vec![string("a"), string("b")])]);
    assert_eq!(require_source(&e), Err(RewriteError::DynamicRequire));
}

#[test]
fn require_without_arguments_is_no_require_call() {
    let e = call(ident("require"), vec![]);
    assert_eq!(require_source(&e), Ok(None));
}

#[test]
fn require_with_two_arguments_is_no_require_call() {
    let e = call(ident("require"), vec![string("a"), string("b")]);
    assert_eq!(require_source(&e), Ok(None));
}

#[test]
fn another_callee_is_no_require_call() {
    assert_eq!(require_source(&call(ident("import"), vec![string("a")])), Ok(None));
    assert_eq!(require_source(&call(ident("requires"), vec![string("a")])), Ok(None));
    assert_eq!(
        require_source(&call(member(ident("module"), "require"), vec![string("a")])),
        Ok(None)
    );
    assert_eq!(require_source(&call(ident("load"), vec![ident("x")])), Ok(None));
}

#[test]
fn what_is_no_call_is_no_require_call() {
    assert_eq!(require_source(&ident("require")), Ok(None));
    assert_eq!(require_source(&string("require")), Ok(None));
    assert_eq!(require_source(&member(call(ident("require"), vec![string("a")]), "b")), Ok(None));
}

#[test]
fn if_require_call_expr_runs_the_closure_on_call_and_source() {
    let e = call(ident("require"), vec![string("foo")]);
    let r = if_require_call_expr(&e, |c: &CallExpr, src: String| (c.args.len(), src));
    assert_eq!(r, Ok(Some((1, "foo".to_string()))));
}

#[test]
fn if_require_call_expr_skips_other_expressions() {
    let e = call(ident("load"), vec![string("foo")]);
    let r = if_require_call_expr(&e, |_c: &CallExpr, src: String| src);
    assert_eq!(r, Ok(None));
}

#[test]
fn if_require_call_expr_reports_a_dynamic_require() {
    let e = call(ident("require"), vec![ident("name")]);
    let r = if_require_call_expr(&e, |_c: &CallExpr, src: String| src);
    assert_eq!(r, Err(RewriteError::DynamicRequire));
}

#[test]
fn module_exports_is_the_default_export_target() {
    let a = assignment(member(ident("module"), "exports"), ident("foo"));
    assert!(targets_module_exports(&a));
    assert!(is_module_exports_target(&a));
    assert_eq!(exported_property(&a), None);
}

#[test]
fn module_exports_property_is_a_named_target() {
    let a = assignment(member(member(ident("module"), "exports"), "foo"), ident("bar"));
    assert!(!targets_module_exports(&a));
    assert!(is_module_exports_target(&a));
    assert_eq!(exported_property(&a), Some("foo".to_string()));
}

#[test]
fn exports_property_is_a_named_target() {
    let a = assignment(member(ident("exports"), "foo"), ident("bar"));
    assert!(!targets_module_exports(&a));
    assert!(is_module_exports_target(&a));
    assert_eq!(exported_property(&a), Some("foo".to_string()));
}

#[test]
fn exports_alone_is_no_target() {
    let a = AssignExpr { left: Pat::Ident("exports".to_string()), right: Box::new(ident("foo")) };
    assert!(!is_module_exports_target(&a));
    let b = assignment(ident("exports"), ident("foo"));
    assert!(!is_module_exports_target(&b));
}

#[test]
fn another_root_is_no_target() {
    assert!(!is_module_exports_target(&assignment(member(ident("foo"), "exports"), ident("x"))));
    assert!(!is_module_exports_target(&assignment(member(ident("module"), "export"), ident("x"))));
    assert!(!is_module_exports_target(&assignment(member(ident("Module"), "exports"), ident("x"))));
    assert!(!is_module_exports_target(&assignment(member(ident("other"), "foo"), ident("x"))));
    assert!(!is_module_exports_target(
        &assignment(member(member(ident("module"), "other"), "foo"), ident("x"))
    ));
    assert!(!is_module_exports_target(&assignment(
        member(member(member(ident("module"), "exports"), "a"), "b"),
        ident("x")
    )));
}

#[test]
fn a_computed_property_is_no_target() {
    let a = assignment(computed(ident("exports"), string("foo")), ident("x"));
    assert!(!is_module_exports_target(&a));
    assert_eq!(exported_property(&a), None);
    let b = assignment(computed(ident("module"), string("exports")), ident("x"));
    assert!(!targets_module_exports(&b));
}

#[test]
fn if_export_default_runs_the_closure_on_module_exports_only() {
    let a = assignment(member(ident("module"), "exports"), ident("foo"));
    assert_eq!(if_export_default(&a, || 7), Some(7));
    let b = assignment(member(ident("exports"), "foo"), ident("foo"));
    assert_eq!(if_export_default(&b, || 7), None);
    let c = assignment(member(member(ident("module"), "exports"), "foo"), ident("foo"));
    assert_eq!(if_export_default(&c, || 7), None);
}

#[test]
fn synthetic_names_are_prefix_dollar_counter() {
    assert_eq!(synthetic_ident("_mod", 1), "_mod$1");
    assert_eq!(synthetic_ident("_foo", 2), "_foo$2");
    assert_eq!(synthetic_ident("_mod", 10), "_mod$10");
    assert_eq!(synthetic_ident("_mod", 1234567890), "_mod$1234567890");
    assert_eq!(synthetic_ident("", 0), "$0");
}

#[test]
fn synthetic_names_take_the_largest_counter() {
    assert_eq!(
        synthetic_ident("_x", u128::MAX),
        "_x$340282366920938463463374607431768211455"
    );
}

#[test]
fn a_name_can_be_exported_if_it_is_a_valid_identifier_and_not_empty() {
    assert!(is_exportable("foo"));
    assert!(is_exportable("_a$1"));
    assert!(is_exportable("$"));
    assert!(!is_exportable(""));
    assert!(!is_exportable("1abc"));
    assert!(!is_exportable("a-b"));
    assert!(is_valid_identifier(""));
}
