//! Structural predicates: each recognises one shape of CommonJS syntax and
//! changes nothing.
use crate::ast::{
    expr_view, AssignExpr, AssignExprView, CallExpr, Expr, ExprView, Key, KeyView, Pat, PatView,
};
use vstd::prelude::*;

verus! {

/// Why a rewrite was abandoned.
#[derive(Debug, Clone, Copy, PartialEq, Eq)]
pub enum RewriteError {
    /// A call of `require` whose only argument is not a string literal: the
    /// module that it names cannot be known before the program runs.
    DynamicRequire,
}

/// What `char::is_numeric` returns for `c`.
pub uninterp spec fn char_is_numeric(c: char) -> bool;

/// What `char::is_alphanumeric` returns for `c`.
pub uninterp spec fn char_is_alphanumeric(c: char) -> bool;

/// `char::is_numeric` of std decides by the Unicode tables whether `c` is a
/// numeral. Its result depends on `c` alone and is known here only by name.
pub assume_specification[ char::is_numeric ](c: char) -> (b: bool)
    ensures
        b == char_is_numeric(c),
;

/// `char::is_alphanumeric` of std decides by the Unicode tables whether `c` is
/// a letter or a numeral. Its result depends on `c` alone and is known here
/// only by name.
pub assume_specification[ char::is_alphanumeric ](c: char) -> (b: bool)
    ensures
        b == char_is_alphanumeric(c),
;

/// A character that may stand in a bare identifier.
pub open spec fn identifier_char(c: char) -> bool {
    char_is_alphanumeric(c) || c == '_' || c == '$'
}

/// A name that can be bound as it stands: it does not start with a numeral
/// and holds only letters, numerals, `_` and `$`.
pub open spec fn valid_identifier(s: Seq<char>) -> bool {
    &&& s.len() > 0 ==> !char_is_numeric(s[0])
    &&& forall|i: int| 0 <= i < s.len() ==> identifier_char(#[trigger] s[i])
}

/// Whether `c` may stand in a bare identifier, for a caller that knows
/// whether `c` is alphanumeric.
pub fn is_identifier_char(c: char, alphanumeric: bool) -> (b: bool)
    ensures
        b == (alphanumeric || c == '_' || c == '$'),
{
    alphanumeric || c == '_' || c == '$'
}

/// Whether `s` can be used as an identifier.
pub fn is_valid_identifier(s: &str) -> (b: bool)
    ensures
        b == valid_identifier(s@),
{
    let mut first = true;
    for c in it: s.chars()
        invariant
            it.seq() == s@,
            first == (it.index() == 0),
            forall|j: int| 0 <= j < it.index() ==> identifier_char(#[trigger] s@[j]),
            s@.len() > 0 && it.index() > 0 ==> !char_is_numeric(s@[0]),
    {
        if first && c.is_numeric() {
            return false;
        }
        if !is_identifier_char(c, c.is_alphanumeric()) {
            return false;
        }
        first = false;
    }
    true
}

/// Whether two names are the same text.
pub fn same_name(a: &str, b: &str) -> (r: bool)
    ensures
        r == (a@ == b@),
{
    let x = String::from_str(a);
    let y = String::from_str(b);
    x == y
}

/// What an expression is with respect to `require`.
pub enum RequireCall {
    /// Not a call of the bare identifier `require` with exactly one argument.
    NotRequire,
    /// `require('src')`: the argument is a string literal.
    Literal(Seq<char>),
    /// `require(<expr>)`, where the argument is anything else.
    Dynamic,
}

/// What `e` is with respect to `require`. Only a call whose callee is
/// exactly the identifier `require` and that has exactly one argument is a
/// call of `require`.
pub open spec fn require_call(e: ExprView) -> RequireCall {
    match e {
        ExprView::Call(c) => {
            if *c.callee == ExprView::Ident("require"@) && c.args.len() == 1 {
                match c.args[0] {
                    ExprView::Str(src) => RequireCall::Literal(src),
                    _ => RequireCall::Dynamic,
                }
            } else {
                RequireCall::NotRequire
            }
        },
        _ => RequireCall::NotRequire,
    }
}

/// The module that `e` requires, if `e` is a call of `require` on a string
/// literal; an error if it is one on anything else.
pub fn require_source(e: &Expr) -> (r: Result<Option<String>, RewriteError>)
    ensures
        match require_call(e@) {
            RequireCall::NotRequire => r == Ok::<Option<String>, RewriteError>(None),
            RequireCall::Literal(src) => r is Ok && r->Ok_0 is Some && r->Ok_0->Some_0@ == src,
            RequireCall::Dynamic => r == Err::<Option<String>, RewriteError>(
                RewriteError::DynamicRequire,
            ),
        },
{
    proof {
        reveal_with_fuel(expr_view, 2);
    }
    match e {
        Expr::Call(c) => {
            let named = match &*c.callee {
                Expr::Ident(name) => same_name(name.as_str(), "require"),
                _ => false,
            };
            assert(e@ == ExprView::Call(c@));
            assert(c@.args.len() == c.args.len());
            if named && c.args.len() == 1 {
                assert(c@.args[0] == c.args[0]@);
                match &c.args[0] {
                    Expr::Str(src) => Ok(Some(src.clone())),
                    _ => Err(RewriteError::DynamicRequire),
                }
            } else {
                Ok(None)
            }
        },
        _ => Ok(None),
    }
}

/// Runs `f` on the call and on its source, if `e` is a call of `require` on a
/// string literal.
pub fn if_require_call_expr<T, F: FnOnce(&CallExpr, String) -> T>(e: &Expr, f: F) -> (r: Result<
    Option<T>,
    RewriteError,
>)
    requires
        require_call(e@) matches RequireCall::Literal(s) ==> forall|src: String|
            src@ == s ==> f.requires((&e->Call_0, src)),
    ensures
        match require_call(e@) {
            RequireCall::NotRequire => r matches Ok(None),
            RequireCall::Literal(s) => r matches Ok(Some(t)) && exists|src: String|
                src@ == s && f.ensures((&e->Call_0, src), t),
            RequireCall::Dynamic => r matches Err(RewriteError::DynamicRequire),
        },
{
    match require_source(e) {
        Err(err) => Err(err),
        Ok(None) => Ok(None),
        Ok(Some(src)) => match e {
            Expr::Call(c) => Ok(Some(f(c, src))),
            _ => unreached(),
        },
    }
}

/// `module.exports`
pub open spec fn is_module_exports(e: ExprView) -> bool {
    &&& e matches ExprView::Member(m)
    &&& *m.obj == ExprView::Ident("module"@)
    &&& m.prop == KeyView::Ident("exports"@)
}

/// The assignment's target is exactly `module.exports`.
pub open spec fn is_export_default(a: AssignExprView) -> bool {
    &&& a.left matches PatView::Expr(target)
    &&& is_module_exports(*target)
}

/// The name `p`, if the assignment's target is `module.exports.p` or
/// `exports.p`.
pub open spec fn export_property(a: AssignExprView) -> Option<Seq<char>> {
    match a.left {
        PatView::Expr(target) => match *target {
            ExprView::Member(m) => match m.prop {
                KeyView::Ident(p) => if *m.obj == ExprView::Ident("exports"@) || is_module_exports(
                    *m.obj,
                ) {
                    Some(p)
                } else {
                    None
                },
                _ => None,
            },
            _ => None,
        },
        _ => None,
    }
}

/// The assignment's target is `module.exports`, `module.exports.<name>` or
/// `exports.<name>`.
pub open spec fn module_exports_target(a: AssignExprView) -> bool {
    is_export_default(a) || export_property(a) is Some
}

fn names_module_exports(e: &Expr) -> (b: bool)
    ensures
        b == is_module_exports(e@),
{
    proof {
        reveal_with_fuel(expr_view, 2);
    }
    match e {
        Expr::Member(m) => {
            let obj_ok = match &*m.obj {
                Expr::Ident(name) => same_name(name.as_str(), "module"),
                _ => false,
            };
            let prop_ok = match &m.prop {
                Key::Ident(name) => same_name(name.as_str(), "exports"),
                _ => false,
            };
            obj_ok && prop_ok
        },
        _ => false,
    }
}

/// Whether the assignment's target is exactly `module.exports`.
pub fn targets_module_exports(a: &AssignExpr) -> (b: bool)
    ensures
        b == is_export_default(a@),
{
    match &a.left {
        Pat::Expr(target) => names_module_exports(target),
        _ => false,
    }
}

/// Runs `f`, if the assignment's target is exactly `module.exports`. An
/// assignment to `exports` alone exports nothing.
pub fn if_export_default<T, F: FnOnce() -> T>(node: &AssignExpr, f: F) -> (r: Option<T>)
    requires
        is_export_default(node@) ==> f.requires(()),
    ensures
        is_export_default(node@) ==> r is Some && f.ensures((), r->Some_0),
        !is_export_default(node@) ==> r is None,
{
    if targets_module_exports(node) {
        Some(f())
    } else {
        None
    }
}

/// The exported name, if the assignment's target is `module.exports.<name>`
/// or `exports.<name>`.
pub fn exported_property(a: &AssignExpr) -> (r: Option<String>)
    ensures
        match export_property(a@) {
            Some(p) => r is Some && r->Some_0@ == p,
            None => r is None,
        },
{
    match &a.left {
        Pat::Expr(target) => match &**target {
            Expr::Member(m) => match &m.prop {
                Key::Ident(p) => {
                    let on_exports = match &*m.obj {
                        Expr::Ident(name) => same_name(name.as_str(), "exports"),
                        _ => false,
                    };
                    let nested = names_module_exports(&m.obj);
                    assert(a@.left == PatView::Expr(Box::new(target@)));
                    assert(target@ == ExprView::Member(m@));
                    if on_exports || nested {
                        Some(p.clone())
                    } else {
                        None
                    }
                },
                _ => None,
            },
            _ => None,
        },
        _ => None,
    }
}

/// Whether the assignment's target is `module.exports`,
/// `module.exports.<name>` or `exports.<name>`.
pub fn is_module_exports_target(a: &AssignExpr) -> (b: bool)
    ensures
        b == module_exports_target(a@),
{
    targets_module_exports(a) || exported_property(a).is_some()
}

} // verus!
