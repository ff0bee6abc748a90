//! What holds of the passes and of the cascade on the shapes that they are
//! made for, stated over the spec functions that the contracts use, and
//! proved.
use crate::ast::{
    AssignExprView, CallExprView, ExportSpecifierView, ExprView, ImportDeclView, KeyView,
    MemberExprView, ModuleItemView, ModuleView, NamedExportView, ObjectPatPropView, PatView,
    PropView, StmtView, VarDeclaratorView, VarDeclKind, VarDeclView,
};
use crate::converted::{
    converted_declarator, converted_expr, converted_item, converted_pat_prop, converted_prop,
    converted_stmt, defaults_gone, lemma_expansion_converted,
};
use crate::names::synthetic_name;
use crate::settled::{
    law_pass_leaves_esm_untouched, lemma_exports_idle, lemma_imports_settled,
    lemma_rest_of_cascade_idle, lemma_settled_expr, lemma_settled_exprs, lemma_settled_pat,
    settled_declarator, settled_expr, settled_exprs, settled_key, settled_module, settled_pat,
    settled_props,
};
use crate::tidy::{
    lemma_expansion_tidy, tidy_declarator, tidy_expr, tidy_item, tidy_pat_prop, tidy_prop,
    tidy_stmt,
};
use crate::transform_cjs::{cascade, followed_by, imports_of, untouched};
use crate::traverse::{
    added_default, apply, both, default_items, default_warnings, flush, hoisted_item, hoisted_items,
    import_items, lemma_concat_assoc, lemma_concat_empty, on_declarator, on_expr, on_expr_stmt,
    rw_call, rw_children, rw_declarator, rw_declarators, rw_expr, rw_item, rw_items, rw_opt_expr,
    rw_stmt, OutputView,
};
use crate::utils::RewriteError;
use crate::visitors::{
    default_export_of_ident, default_export_of_value, expand_object, export_of_object, exportable,
    keep, named_import, named_imports, namespace_import, pure_destructuring, pure_object,
    side_effect_import, single_export, Expansion, Pass, PendingView, Rewrite, Warning,
};
use vstd::prelude::*;

verus! {

/// Matches are flushed in source order: what a pass records for a module
/// body is what it records for the first part of the body, followed by what
/// it records for the rest; and the rewritten body is the rewritten first
/// part followed by the rewritten rest.
#[verifier::rlimit(30)]
pub proof fn law_order_preserved(
    p: Pass,
    first: Seq<ModuleItemView>,
    rest: Seq<ModuleItemView>,
    n: nat,
)
    ensures
        ({
            let x = rw_items(p, first, n);
            let y = rw_items(p, rest, n + x.out.issued());
            rw_items(p, first + rest, n) == both(x, y, x.node + y.node)
        }),
    decreases rest.len(),
{
    let x = rw_items(p, first, n);
    let y = rw_items(p, rest, n + x.out.issued());
    if rest.len() == 0 {
        assert(first + rest =~= first);
        lemma_concat_empty(x.out);
        assert(x.node + y.node =~= x.node);
    } else {
        let front = rest.drop_last();
        assert((first + rest).drop_last() =~= first + front);
        assert((first + rest).last() == rest.last());
        law_order_preserved(p, first, front, n);
        let y0 = rw_items(p, front, n + x.out.issued());
        let whole_front = rw_items(p, first + front, n);
        lemma_concat_assoc(x.out, y0.out, PendingView::empty());
        let last = rw_item(p, rest.last(), n + x.out.issued() + y0.out.issued());
        lemma_concat_assoc(x.out, y0.out, last.out);
        if last.node == ModuleItemView::Stmt(StmtView::Empty) {
            assert(x.node + y.node =~= x.node + y0.node);
        } else {
            assert(x.node + y.node =~= (x.node + y0.node).push(last.node));
        }
    }
}

/// Hoisting keeps the order: for a module body in two parts, a pass puts the
/// imports of the first part ahead of those of the second at the head, and at
/// the end the constants of the first part ahead of those of the second,
/// then the exports of the first part ahead of those of the second, and last
/// the one default export: what the pass has found in the second part if it
/// has met an assignment to `module.exports` there, else what it has found in
/// the first.
pub proof fn law_matches_are_flushed_in_order(
    p: Pass,
    first: Seq<ModuleItemView>,
    rest: Seq<ModuleItemView>,
)
    ensures
        ({
            let x = rw_items(p, first, 0);
            let y = rw_items(p, rest, x.out.issued());
            !x.fatal && !y.fatal ==> apply(p, ModuleView { body: first + rest }) == Ok::<
                OutputView,
                RewriteError,
            >(
                OutputView {
                    module: ModuleView {
                        body: import_items(x.out.imports) + import_items(y.out.imports) + x.node
                            + y.node + hoisted_items(x.out.decls) + hoisted_items(y.out.decls)
                            + x.out.exports + y.out.exports + default_items(
                            added_default(x.node + y.node, x.out.concat(y.out).default_export),
                        ),
                    },
                    warnings: x.out.warnings + y.out.warnings + default_warnings(
                        added_default(x.node + y.node, x.out.concat(y.out).default_export),
                    ),
                },
            )
        }),
{
    reveal(apply);
    let x = rw_items(p, first, 0);
    let y = rw_items(p, rest, x.out.issued());
    law_order_preserved(p, first, rest, 0);
    if !x.fatal && !y.fatal {
        let out = x.out.concat(y.out);
        assert(import_items(out.imports) =~= import_items(x.out.imports) + import_items(
            y.out.imports,
        ));
        assert(hoisted_items(out.decls) =~= hoisted_items(x.out.decls) + hoisted_items(
            y.out.decls,
        ));
        assert(flush(x.node + y.node, out) =~= import_items(x.out.imports) + import_items(
            y.out.imports,
        ) + x.node + y.node + hoisted_items(x.out.decls) + hoisted_items(y.out.decls)
            + x.out.exports + y.out.exports + default_items(
            added_default(x.node + y.node, out.default_export),
        ));
    }
}

/// `require('src')`
pub open spec fn require_of(src: Seq<char>) -> ExprView {
    ExprView::Call(
        CallExprView {
            callee: Box::new(ExprView::Ident("require"@)),
            args: seq![ExprView::Str(src)],
        },
    )
}

/// The module body `require(srcs[0]); require(srcs[1]); ..`
pub open spec fn bare_requires(srcs: Seq<Seq<char>>) -> Seq<ModuleItemView> {
    Seq::new(srcs.len(), |i: int| ModuleItemView::Stmt(StmtView::Expr(require_of(srcs[i]))))
}

/// `import srcs[0]; import srcs[1]; ..`
pub open spec fn side_effect_imports(srcs: Seq<Seq<char>>) -> Seq<ImportDeclView> {
    Seq::new(srcs.len(), |i: int| side_effect_import(srcs[i]))
}

/// The callee and the argument of `require('src')` are settled.
proof fn lemma_literal_and_callee_settled(src: Seq<char>)
    ensures
        settled_expr(ExprView::Ident("require"@)),
        settled_exprs(seq![ExprView::Str(src)]),
{
    let args = seq![ExprView::Str(src)];
    assert(settled_expr(args[0]));
}

/// No pass but the fallback changes a `require` of a string literal that it
/// meets as an expression.
pub proof fn lemma_require_inert(p: Pass, src: Seq<char>, n: nat)
    requires
        p != Pass::RequireFallback,
    ensures
        rw_expr(p, require_of(src), n) == keep(require_of(src)),
{
    let e = require_of(src);
    let c = e->Call_0;
    lemma_literal_and_callee_settled(src);
    lemma_settled_expr(p, *c.callee, n);
    lemma_settled_exprs(p, c.args, n);
    lemma_concat_empty(PendingView::empty());
    reveal(on_expr);
    assert(rw_call(p, c, n) == keep(c));
    assert(rw_children(p, e, n) == keep(e));
}

/// The statement pass on `require(srcs[0]); require(srcs[1]); ..`: no item
/// is left and one import per statement is recorded, in order.
proof fn lemma_bare_requires_items(srcs: Seq<Seq<char>>, n: nat)
    ensures
        rw_items(Pass::RequireStatement, bare_requires(srcs), n) == (Rewrite {
            node: Seq::<ModuleItemView>::empty(),
            out: PendingView { imports: side_effect_imports(srcs), ..PendingView::empty() },
            fatal: false,
        }),
    decreases srcs.len(),
{
    let p = Pass::RequireStatement;
    let body = bare_requires(srcs);
    if srcs.len() == 0 {
        assert(side_effect_imports(srcs) =~= Seq::<ImportDeclView>::empty());
    } else {
        let front = srcs.drop_last();
        assert(body.drop_last() =~= bare_requires(front));
        lemma_bare_requires_items(front, n);
        let before = rw_items(p, bare_requires(front), n);
        let m = n + before.out.issued();
        let e = require_of(srcs.last());
        assert(body.last() == ModuleItemView::Stmt(StmtView::Expr(e)));
        lemma_require_inert(p, srcs.last(), m);
        reveal(on_expr_stmt);
        lemma_concat_empty(PendingView::import(side_effect_import(srcs.last())));
        assert(rw_stmt(p, StmtView::Expr(e), m) == (Rewrite {
            node: StmtView::Empty,
            out: PendingView::import(side_effect_import(srcs.last())),
            fatal: false,
        }));
        assert(side_effect_imports(front).push(side_effect_import(srcs.last()))
            =~= side_effect_imports(srcs));
        assert(before.out.concat(PendingView::import(side_effect_import(srcs.last())))
            =~~= (PendingView { imports: side_effect_imports(srcs), ..PendingView::empty() }));
    }
}

/// A module that holds nothing but statements `require('x');` becomes one
/// `import 'x';` per statement, in the order of the statements, and no
/// statement is left; the first pass does all of it, and the rest of the
/// cascade changes nothing more.
#[verifier::rlimit(30)]
pub proof fn law_bare_requires_become_imports(srcs: Seq<Seq<char>>)
    ensures
        apply(Pass::RequireStatement, ModuleView { body: bare_requires(srcs) }) == untouched(
            ModuleView { body: import_items(side_effect_imports(srcs)) },
        ),
        cascade(ModuleView { body: bare_requires(srcs) }) == untouched(
            ModuleView { body: import_items(side_effect_imports(srcs)) },
        ),
{
    reveal(apply);
    let m = ModuleView { body: bare_requires(srcs) };
    let after = ModuleView { body: import_items(side_effect_imports(srcs)) };
    lemma_bare_requires_items(srcs, 0);
    let out = PendingView { imports: side_effect_imports(srcs), ..PendingView::empty() };
    assert(flush(Seq::<ModuleItemView>::empty(), out) =~= after.body);
    assert(apply(Pass::RequireStatement, m) == untouched(after));
    lemma_imports_settled(side_effect_imports(srcs));
    assert(Seq::<Warning>::empty() + Seq::<Warning>::empty() =~= Seq::<Warning>::empty());
    assert(followed_by(untouched(m), Pass::RequireStatement) == untouched(after));
    lemma_rest_of_cascade_idle(untouched(after));
}

/// `name = require('src')`
pub open spec fn bound_require(name: Seq<char>, src: Seq<char>) -> VarDeclaratorView {
    VarDeclaratorView { name: PatView::Ident(name), init: Some(require_of(src)) }
}

/// What a pass records for a list of declarators is what it records for the
/// first part followed by what it records for the rest, and the declarators
/// that stay are those of the first part followed by those of the rest.
pub proof fn lemma_declarators_in_order(
    p: Pass,
    first: Seq<VarDeclaratorView>,
    rest: Seq<VarDeclaratorView>,
    n: nat,
)
    ensures
        ({
            let x = rw_declarators(p, first, n);
            let y = rw_declarators(p, rest, n + x.out.issued());
            rw_declarators(p, first + rest, n) == both(x, y, x.node + y.node)
        }),
    decreases rest.len(),
{
    let x = rw_declarators(p, first, n);
    let y = rw_declarators(p, rest, n + x.out.issued());
    if rest.len() == 0 {
        assert(first + rest =~= first);
        lemma_concat_empty(x.out);
        assert(x.node + y.node =~= x.node);
    } else {
        let front = rest.drop_last();
        assert((first + rest).drop_last() =~= first + front);
        assert((first + rest).last() == rest.last());
        lemma_declarators_in_order(p, first, front, n);
        let y0 = rw_declarators(p, front, n + x.out.issued());
        lemma_concat_assoc(x.out, y0.out, PendingView::empty());
        let last = rw_declarator(p, rest.last(), n + x.out.issued() + y0.out.issued());
        lemma_concat_assoc(x.out, y0.out, last.out);
        match last.node {
            Some(d) => {
                assert(x.node + y.node =~= (x.node + y0.node).push(d));
            },
            None => {
                assert(x.node + y.node =~= x.node + y0.node);
            },
        }
    }
}

/// The ident-bound pass on `name = require('src')`: the declarator goes and
/// `import * as name from 'src';` is recorded.
pub proof fn lemma_bound_require_taken(name: Seq<char>, src: Seq<char>, n: nat)
    ensures
        rw_declarator(Pass::RequireIdent, bound_require(name, src), n) == (Rewrite {
            node: None::<VarDeclaratorView>,
            out: PendingView::import(namespace_import(name, src)),
            fatal: false,
        }),
{
    let p = Pass::RequireIdent;
    let d = bound_require(name, src);
    lemma_settled_pat(p, d.name, n);
    lemma_require_inert(p, src, n);
    lemma_concat_empty(PendingView::empty());
    lemma_concat_empty(PendingView::import(namespace_import(name, src)));
    reveal(on_declarator);
    assert(rw_opt_expr(p, d.init, n) == keep(d.init));
}

/// For a declaration that holds `name = require('src')` among its
/// declarators, the ident-bound pass records `import * as name from 'src';`,
/// after what it records for the declarators before and ahead of what it
/// records for those after; the declarator is not in the declaration any
/// more; and if no declarator is left, the declaration is gone.
pub proof fn law_ident_bound_require(
    kind: VarDeclKind,
    before: Seq<VarDeclaratorView>,
    name: Seq<char>,
    src: Seq<char>,
    after: Seq<VarDeclaratorView>,
    n: nat,
)
    ensures
        ({
            let p = Pass::RequireIdent;
            let x = rw_declarators(p, before, n);
            let y = rw_declarators(p, after, n + x.out.issued() + 1);
            let decl = StmtView::Var(
                VarDeclView { kind, decls: before.push(bound_require(name, src)) + after },
            );
            rw_stmt(p, decl, n) == (Rewrite {
                node: if x.node.len() + y.node.len() == 0 {
                    StmtView::Empty
                } else {
                    StmtView::Var(VarDeclView { kind, decls: x.node + y.node })
                },
                out: x.out.concat(PendingView::import(namespace_import(name, src))).concat(y.out),
                fatal: x.fatal || y.fatal,
            })
        }),
{
    let p = Pass::RequireIdent;
    let d = bound_require(name, src);
    let x = rw_declarators(p, before, n);
    let taken = PendingView::import(namespace_import(name, src));
    let y = rw_declarators(p, after, n + x.out.issued() + 1);
    lemma_bound_require_taken(name, src, n + x.out.issued());
    assert(before.push(d).drop_last() =~= before);
    let mid = rw_declarators(p, before.push(d), n);
    assert(mid == (Rewrite { node: x.node, out: x.out.concat(taken), fatal: x.fatal }));
    lemma_concat_assoc(x.out, taken, y.out);
    lemma_declarators_in_order(p, before.push(d), after, n);
}

/// `const name = require('src');`, alone in a module, becomes
/// `import * as name from 'src';`, and the declaration is gone: the
/// ident-bound pass does all of it, and the rest of the cascade changes
/// nothing more.
#[verifier::rlimit(30)]
pub proof fn law_sole_ident_bound_require(kind: VarDeclKind, name: Seq<char>, src: Seq<char>)
    ensures
        apply(Pass::RequireIdent, sole_declaration(kind, bound_require(name, src))) == untouched(
            ModuleView { body: seq![ModuleItemView::Import(namespace_import(name, src))] },
        ),
        cascade(sole_declaration(kind, bound_require(name, src))) == untouched(
            ModuleView { body: seq![ModuleItemView::Import(namespace_import(name, src))] },
        ),
{
    let p = Pass::RequireIdent;
    let d = bound_require(name, src);
    let m = sole_declaration(kind, d);
    let import = namespace_import(name, src);
    let after = ModuleView { body: seq![ModuleItemView::Import(import)] };
    lemma_bound_require_taken(name, src, 0);
    lemma_pass_on_sole_declaration(p, kind, d);
    assert(flush(Seq::<ModuleItemView>::empty(), PendingView::import(import)) =~= after.body);
    assert(apply(p, m) == untouched(after));
    assert(on_declarator(Pass::RequireStatement, d) == keep(Some(d))) by {
        reveal(on_declarator);
    }
    lemma_declarator_rule_alone(Pass::RequireStatement, d, src, 0);
    lemma_pass_idle_on_sole_declaration(Pass::RequireStatement, kind, d);
    assert(Seq::<Warning>::empty() + Seq::<Warning>::empty() =~= Seq::<Warning>::empty());
    assert(followed_by(untouched(m), Pass::RequireStatement) == untouched(m));
    assert(followed_by(untouched(m), p) == untouched(after));
    assert(after.body =~= import_items(seq![import]));
    lemma_imports_settled(seq![import]);
    lemma_rest_of_cascade_idle(untouched(after));
}

/// `module.exports`
pub open spec fn module_exports() -> ExprView {
    ExprView::Member(
        MemberExprView {
            obj: Box::new(ExprView::Ident("module"@)),
            prop: KeyView::Ident("exports"@),
        },
    )
}

/// The statement `module.exports = <value>;`
pub open spec fn default_export_stmt(value: ExprView) -> StmtView {
    StmtView::Expr(
        ExprView::Assign(
            AssignExprView {
                left: PatView::Expr(Box::new(module_exports())),
                right: Box::new(value),
            },
        ),
    )
}

/// The module that holds one statement and nothing else.
pub open spec fn sole(s: StmtView) -> ModuleView {
    ModuleView { body: seq![ModuleItemView::Stmt(s)] }
}

/// What a pass makes of a module that holds one statement: what it makes of
/// the statement, flushed.
pub proof fn lemma_pass_on_sole_stmt(p: Pass, s: StmtView)
    ensures
        ({
            let r = rw_stmt(p, s, 0);
            let body = if r.node is Empty {
                Seq::<ModuleItemView>::empty()
            } else {
                seq![ModuleItemView::Stmt(r.node)]
            };
            apply(p, sole(s)) == if r.fatal {
                Err::<OutputView, RewriteError>(RewriteError::DynamicRequire)
            } else {
                Ok::<OutputView, RewriteError>(
                    OutputView {
                        module: ModuleView { body: flush(body, r.out) },
                        warnings: r.out.warnings + default_warnings(
                            added_default(body, r.out.default_export),
                        ),
                    },
                )
            }
        }),
{
    reveal(apply);
    let r = rw_stmt(p, s, 0);
    let items = sole(s).body;
    reveal_with_fuel(rw_items, 2);
    assert(items.drop_last() =~= Seq::<ModuleItemView>::empty());
    lemma_concat_empty(r.out);
    let whole = rw_items(p, items, 0);
    assert(whole.out == r.out);
    if r.node is Empty {
        assert(whole.node =~= Seq::<ModuleItemView>::empty());
    } else {
        assert(whole.node =~= seq![ModuleItemView::Stmt(r.node)]);
    }
}

/// A pass whose rule does not apply to a settled expression statement leaves
/// the statement as it is.
pub proof fn lemma_idle_on_stmt(p: Pass, e: ExprView, n: nat)
    requires
        settled_expr(e),
        on_expr_stmt(p, e, n) == keep(StmtView::Expr(e)),
    ensures
        rw_stmt(p, StmtView::Expr(e), n) == keep(StmtView::Expr(e)),
{
    lemma_settled_expr(p, e, n);
    lemma_concat_empty(PendingView::empty());
}

/// A pass whose rule does not apply to a settled expression statement leaves
/// the module that holds nothing but the statement as it is.
pub proof fn lemma_pass_idle_on_sole(p: Pass, e: ExprView)
    requires
        settled_expr(e),
        on_expr_stmt(p, e, 0) == keep(StmtView::Expr(e)),
    ensures
        apply(p, sole(StmtView::Expr(e))) == untouched(sole(StmtView::Expr(e))),
        followed_by(untouched(sole(StmtView::Expr(e))), p) == untouched(sole(StmtView::Expr(e))),
{
    let m = sole(StmtView::Expr(e));
    lemma_idle_on_stmt(p, e, 0);
    lemma_pass_on_sole_stmt(p, StmtView::Expr(e));
    assert(flush(m.body, PendingView::empty()) =~= m.body);
    assert(Seq::<Warning>::empty() + Seq::<Warning>::empty() =~= Seq::<Warning>::empty());
}

/// No rule of an import pass applies to an expression statement that is no
/// call.
proof fn lemma_import_rules_skip(e: ExprView)
    requires
        e !is Call,
    ensures
        on_expr_stmt(Pass::RequireStatement, e, 0) == keep(StmtView::Expr(e)),
        on_expr_stmt(Pass::RequireIdent, e, 0) == keep(StmtView::Expr(e)),
        on_expr_stmt(Pass::PureDestructuredRequire, e, 0) == keep(StmtView::Expr(e)),
        on_expr_stmt(Pass::RequireFallback, e, 0) == keep(StmtView::Expr(e)),
{
    reveal(on_expr_stmt);
}

/// The import passes leave alone a module that holds nothing but a settled
/// expression statement that is no call.
proof fn lemma_imports_idle_on_sole(e: ExprView)
    requires
        settled_expr(e),
        e !is Call,
    ensures
        imports_of(untouched(sole(StmtView::Expr(e)))) == untouched(sole(StmtView::Expr(e))),
{
    lemma_import_rules_skip(e);
    lemma_pass_idle_on_sole(Pass::RequireStatement, e);
    lemma_pass_idle_on_sole(Pass::RequireIdent, e);
    lemma_pass_idle_on_sole(Pass::PureDestructuredRequire, e);
    lemma_pass_idle_on_sole(Pass::RequireFallback, e);
}

/// An assignment to `module.exports` is settled as an expression if its value
/// is.
pub proof fn lemma_assignment_settled(value: ExprView)
    requires
        settled_expr(value),
    ensures
        settled_expr(default_export_stmt(value)->Expr_0),
        default_export_stmt(value)->Expr_0 !is Call,
{
    let target = module_exports();
    reveal_strlit("module");
    reveal_strlit("exports");
    assert(settled_expr(ExprView::Ident("module"@)));
    assert(settled_key(KeyView::Ident("exports"@)));
    assert(settled_expr(target));
    assert(settled_pat(PatView::Expr(Box::new(target))));
    let e = default_export_stmt(value)->Expr_0;
    assert(converted_expr(e, defaults_gone()));
    assert(tidy_expr(e));
}

/// The identifier pass on `module.exports = name;`, alone in a module.
proof fn lemma_identifier_pass_on_sole(name: Seq<char>)
    ensures
        apply(Pass::ModuleExportsIdent, sole(default_export_stmt(ExprView::Ident(name))))
            == untouched(
            ModuleView {
                body: seq![
                    single_export(name, None),
                    ModuleItemView::ExportDefault(ExprView::Ident(name)),
                ],
            },
        ),
{
    let p = Pass::ModuleExportsIdent;
    let s = default_export_stmt(ExprView::Ident(name));
    let e = s->Expr_0;
    lemma_assignment_settled(ExprView::Ident(name));
    lemma_settled_expr(p, e, 0);
    assert(on_expr_stmt(p, e, 0) == default_export_of_ident(e)) by {
        reveal(on_expr_stmt);
    }
    let r = rw_stmt(p, s, 0);
    lemma_concat_empty(default_export_of_ident(e).out);
    assert(r == default_export_of_ident(e));
    lemma_pass_on_sole_stmt(p, s);
    assert(flush(Seq::<ModuleItemView>::empty(), r.out) =~= seq![
        single_export(name, None),
        ModuleItemView::ExportDefault(ExprView::Ident(name)),
    ]);
}

/// `module.exports = name;`, alone in a module, becomes `export { name };`
/// and `export default name;`, without a warning.
#[verifier::rlimit(30)]
pub proof fn law_default_export_of_identifier(name: Seq<char>)
    ensures
        cascade(sole(default_export_stmt(ExprView::Ident(name)))) == untouched(
            ModuleView {
                body: seq![
                    single_export(name, None),
                    ModuleItemView::ExportDefault(ExprView::Ident(name)),
                ],
            },
        ),
{
    let s = default_export_stmt(ExprView::Ident(name));
    let after = ModuleView {
        body: seq![single_export(name, None), ModuleItemView::ExportDefault(ExprView::Ident(name))],
    };
    lemma_assignment_settled(ExprView::Ident(name));
    lemma_imports_idle_on_sole(s->Expr_0);
    lemma_identifier_pass_on_sole(name);
    assert(Seq::<Warning>::empty() + Seq::<Warning>::empty() =~= Seq::<Warning>::empty());
    assert(followed_by(untouched(sole(s)), Pass::ModuleExportsIdent) == untouched(after));
    lemma_rest_of_cascade_idle(untouched(after));
}

/// The identifier pass leaves `module.exports = value;`, alone in a module,
/// to a later pass where `value` is no identifier: the module stays as it is.
proof fn lemma_identifier_pass_defers_on_sole(value: ExprView)
    requires
        settled_expr(value),
        value !is Ident,
    ensures
        followed_by(untouched(sole(default_export_stmt(value))), Pass::ModuleExportsIdent)
            == untouched(sole(default_export_stmt(value))),
{
    let p = Pass::ModuleExportsIdent;
    let s = default_export_stmt(value);
    let e = s->Expr_0;
    let m = sole(s);
    lemma_assignment_settled(value);
    lemma_settled_expr(p, e, 0);
    assert(on_expr_stmt(p, e, 0) == default_export_of_ident(e)) by {
        reveal(on_expr_stmt);
    }
    let r = rw_stmt(p, s, 0);
    lemma_concat_empty(PendingView::deferred());
    assert(r == (Rewrite { node: s, out: PendingView::deferred(), fatal: false }));
    lemma_pass_on_sole_stmt(p, s);
    assert(flush(m.body, r.out) =~= m.body);
    assert(Seq::<Warning>::empty() + Seq::<Warning>::empty() =~= Seq::<Warning>::empty());
}

/// No rule of the property pass or of the object pass applies to
/// `module.exports = value;` where `value` is no object literal.
proof fn lemma_export_rules_skip_scalar(value: ExprView)
    requires
        value !is Ident,
        value !is Object,
    ensures
        ({
            let e = default_export_stmt(value)->Expr_0;
            &&& on_expr_stmt(Pass::ModuleExportsNamedExpr, e, 0) == keep(StmtView::Expr(e))
            &&& on_expr_stmt(Pass::ExportDefaultObject, e, 0) == keep(StmtView::Expr(e))
        }),
{
    reveal(on_expr_stmt);
    reveal_strlit("module");
    reveal_strlit("exports");
    assert("module"@ != "exports"@) by {
        assert("module"@[0] == 'm');
        assert("exports"@[0] == 'e');
    }
}

/// The last pass on `module.exports = value;`, alone in a module.
proof fn lemma_default_pass_on_sole(value: ExprView)
    requires
        settled_expr(value),
    ensures
        apply(Pass::ModuleDefaultExport, sole(default_export_stmt(value))) == Ok::<
            OutputView,
            RewriteError,
        >(
            OutputView {
                module: ModuleView { body: seq![ModuleItemView::ExportDefault(value)] },
                warnings: seq![Warning::OpaqueDefaultExport],
            },
        ),
{
    let p = Pass::ModuleDefaultExport;
    let s = default_export_stmt(value);
    let e = s->Expr_0;
    lemma_assignment_settled(value);
    lemma_settled_expr(p, e, 0);
    assert(on_expr_stmt(p, e, 0) == default_export_of_value(e)) by {
        reveal(on_expr_stmt);
    }
    let r = rw_stmt(p, s, 0);
    lemma_concat_empty(default_export_of_value(e).out);
    assert(r == default_export_of_value(e));
    lemma_pass_on_sole_stmt(p, s);
    assert(flush(Seq::<ModuleItemView>::empty(), r.out) =~= seq![
        ModuleItemView::ExportDefault(value),
    ]);
}

/// `module.exports = value;`, alone in a module, where `value` is neither an
/// identifier nor an object literal and holds nothing for a pass to rewrite,
/// becomes `export default value;`, with the warning that the default export
/// is opaque, and no named export.
#[verifier::rlimit(30)]
pub proof fn law_scalar_default_export(value: ExprView)
    requires
        settled_expr(value),
        value !is Ident,
        value !is Object,
    ensures
        cascade(sole(default_export_stmt(value))) == Ok::<OutputView, RewriteError>(
            OutputView {
                module: ModuleView { body: seq![ModuleItemView::ExportDefault(value)] },
                warnings: seq![Warning::OpaqueDefaultExport],
            },
        ),
{
    let s = default_export_stmt(value);
    let e = s->Expr_0;
    lemma_assignment_settled(value);
    lemma_imports_idle_on_sole(e);
    lemma_export_rules_skip_scalar(value);
    lemma_identifier_pass_defers_on_sole(value);
    lemma_pass_idle_on_sole(Pass::ModuleExportsNamedExpr, e);
    lemma_pass_idle_on_sole(Pass::ExportDefaultObject, e);
    lemma_default_pass_on_sole(value);
    assert(Seq::<Warning>::empty() + seq![Warning::OpaqueDefaultExport] =~= seq![
        Warning::OpaqueDefaultExport,
    ]);
}

/// The module that holds one declaration of one declarator and nothing else.
pub open spec fn sole_declaration(kind: VarDeclKind, d: VarDeclaratorView) -> ModuleView {
    sole(StmtView::Var(VarDeclView { kind, decls: seq![d] }))
}

/// What a pass makes of a module that holds one declaration of one
/// declarator: what it makes of the declarator, flushed.
pub proof fn lemma_pass_on_sole_declaration(p: Pass, kind: VarDeclKind, d: VarDeclaratorView)
    ensures
        ({
            let r = rw_declarator(p, d, 0);
            let body = match r.node {
                Some(kept) => sole_declaration(kind, kept).body,
                None => Seq::<ModuleItemView>::empty(),
            };
            apply(p, sole_declaration(kind, d)) == if r.fatal {
                Err::<OutputView, RewriteError>(RewriteError::DynamicRequire)
            } else {
                Ok::<OutputView, RewriteError>(
                    OutputView {
                        module: ModuleView { body: flush(body, r.out) },
                        warnings: r.out.warnings + default_warnings(
                            added_default(body, r.out.default_export),
                        ),
                    },
                )
            }
        }),
{
    let r = rw_declarator(p, d, 0);
    let decls = seq![d];
    let s = StmtView::Var(VarDeclView { kind, decls });
    reveal_with_fuel(rw_declarators, 2);
    assert(decls.drop_last() =~= Seq::<VarDeclaratorView>::empty());
    lemma_concat_empty(r.out);
    let all = rw_declarators(p, decls, 0);
    assert(all.out == r.out);
    match r.node {
        Some(kept) => {
            assert(all.node =~= seq![kept]);
        },
        None => {
            assert(all.node =~= Seq::<VarDeclaratorView>::empty());
        },
    }
    lemma_pass_on_sole_stmt(p, s);
}

/// The declarator `<pattern> = require('src')`
pub open spec fn destructured(props: Seq<ObjectPatPropView>, src: Seq<char>) -> VarDeclaratorView {
    VarDeclaratorView { name: PatView::Object(props), init: Some(require_of(src)) }
}

/// A pattern whose properties all stand for named imports holds nothing for
/// a pass to rewrite.
proof fn lemma_pure_destructuring_settled(props: Seq<ObjectPatPropView>)
    requires
        pure_destructuring(props),
    ensures
        settled_pat(PatView::Object(props)),
{
    assert forall|i: int| 0 <= i < props.len() implies converted_pat_prop(
        #[trigger] props[i],
        defaults_gone(),
    ) && tidy_pat_prop(props[i]) by {
        assert(named_import(props[i]) is Some);
    }
}

/// Before the fallback, the sub-trees of `<pattern> = require('src')` stay as
/// they are where the pattern is settled, so the pass does to the declarator
/// what its rule does.
proof fn lemma_declarator_rule_alone(p: Pass, d: VarDeclaratorView, src: Seq<char>, n: nat)
    requires
        p != Pass::RequireFallback,
        settled_pat(d.name),
        d.init == Some(require_of(src)),
    ensures
        rw_declarator(p, d, n) == on_declarator(p, d),
{
    lemma_settled_pat(p, d.name, n);
    lemma_require_inert(p, src, n);
    lemma_concat_empty(PendingView::empty());
    lemma_concat_empty(on_declarator(p, d).out);
    assert(rw_opt_expr(p, d.init, n) == keep(d.init));
}

/// The first two passes leave `<object pattern> = require('src')` alone.
proof fn lemma_destructured_waits(props: Seq<ObjectPatPropView>, src: Seq<char>)
    ensures
        on_declarator(Pass::RequireStatement, destructured(props, src)) == keep(
            Some(destructured(props, src)),
        ),
        on_declarator(Pass::RequireIdent, destructured(props, src)) == keep(
            Some(destructured(props, src)),
        ),
{
    reveal(on_declarator);
}

/// A pass that leaves the only declarator of the only declaration alone
/// leaves the module alone.
proof fn lemma_pass_idle_on_sole_declaration(p: Pass, kind: VarDeclKind, d: VarDeclaratorView)
    requires
        rw_declarator(p, d, 0) == keep(Some(d)),
    ensures
        followed_by(untouched(sole_declaration(kind, d)), p) == untouched(
            sole_declaration(kind, d),
        ),
{
    let m = sole_declaration(kind, d);
    lemma_pass_on_sole_declaration(p, kind, d);
    assert(flush(m.body, PendingView::empty()) =~= m.body);
    assert(Seq::<Warning>::empty() + Seq::<Warning>::empty() =~= Seq::<Warning>::empty());
}

/// `const { a, b: c } = require('src');`, alone in a module, where no
/// property of the pattern has a default value, a nested pattern, a key that
/// is no identifier or a rest element, becomes the named imports
/// `import { a, b as c } from 'src';`: each key is imported under the local
/// name that the pattern binds it to.
#[verifier::rlimit(30)]
pub proof fn law_pure_destructured_require(
    kind: VarDeclKind,
    props: Seq<ObjectPatPropView>,
    src: Seq<char>,
)
    requires
        pure_destructuring(props),
    ensures
        cascade(sole_declaration(kind, destructured(props, src))) == untouched(
            ModuleView {
                body: seq![
                    ModuleItemView::Import(
                        ImportDeclView { specifiers: named_imports(props), src },
                    ),
                ],
            },
        ),
{
    let d = destructured(props, src);
    let m = sole_declaration(kind, d);
    let import = ImportDeclView { specifiers: named_imports(props), src };
    let after = ModuleView { body: seq![ModuleItemView::Import(import)] };
    lemma_pure_destructuring_settled(props);
    lemma_destructured_waits(props, src);
    lemma_declarator_rule_alone(Pass::RequireStatement, d, src, 0);
    lemma_declarator_rule_alone(Pass::RequireIdent, d, src, 0);
    lemma_declarator_rule_alone(Pass::PureDestructuredRequire, d, src, 0);
    lemma_pass_idle_on_sole_declaration(Pass::RequireStatement, kind, d);
    lemma_pass_idle_on_sole_declaration(Pass::RequireIdent, kind, d);
    assert(on_declarator(Pass::PureDestructuredRequire, d) == (Rewrite {
        node: None::<VarDeclaratorView>,
        out: PendingView::import(import),
        fatal: false,
    })) by {
        reveal(on_declarator);
    }
    lemma_pass_on_sole_declaration(Pass::PureDestructuredRequire, kind, d);
    assert(flush(Seq::<ModuleItemView>::empty(), PendingView::import(import)) =~= after.body);
    assert(Seq::<Warning>::empty() + Seq::<Warning>::empty() =~= Seq::<Warning>::empty());
    assert(followed_by(untouched(m), Pass::PureDestructuredRequire) == untouched(after));
    assert(after.body =~= import_items(seq![import]));
    lemma_imports_settled(seq![import]);
    lemma_rest_of_cascade_idle(untouched(after));
}

/// The fallback pass on `<pattern> = require('src')`, where the pattern
/// holds nothing for a pass to rewrite and no synthetic name is in use.
proof fn lemma_fallback_on_declarator(props: Seq<ObjectPatPropView>, src: Seq<char>)
    requires
        settled_pat(PatView::Object(props)),
    ensures
        rw_declarator(Pass::RequireFallback, destructured(props, src), 0) == (Rewrite {
            node: Some(
                VarDeclaratorView {
                    name: PatView::Object(props),
                    init: Some(ExprView::Ident(synthetic_name("_mod"@, 1))),
                },
            ),
            out: PendingView::import(namespace_import(synthetic_name("_mod"@, 1), src)),
            fatal: false,
        }),
{
    let p = Pass::RequireFallback;
    let d = destructured(props, src);
    let e = require_of(src);
    let c = e->Call_0;
    let taken = PendingView::import(namespace_import(synthetic_name("_mod"@, 1), src));
    lemma_settled_pat(p, d.name, 0);
    lemma_settled_expr(p, *c.callee, 0);
    lemma_settled_exprs(p, c.args, 0);
    lemma_concat_empty(PendingView::empty());
    lemma_concat_empty(taken);
    assert(rw_call(p, c, 0) == keep(c));
    assert(rw_children(p, e, 0) == keep(e));
    assert(rw_expr(p, e, 0) == (Rewrite {
        node: ExprView::Ident(synthetic_name("_mod"@, 1)),
        out: taken,
        fatal: false,
    })) by {
        reveal(on_expr);
    }
    assert(on_declarator(
        p,
        VarDeclaratorView {
            name: PatView::Object(props),
            init: Some(ExprView::Ident(synthetic_name("_mod"@, 1))),
        },
    ) == keep(
        Some(
            VarDeclaratorView {
                name: PatView::Object(props),
                init: Some(ExprView::Ident(synthetic_name("_mod"@, 1))),
            },
        ),
    )) by {
        reveal(on_declarator);
    }
}

/// `const <pattern> = require('src');`, alone in a module, where some
/// property of the pattern has a default value, a nested pattern, a key that
/// is no identifier or is a rest element, and the pattern holds nothing else
/// for a pass to rewrite: the destructuring pass leaves it alone, and the
/// fallback turns it into `import * as _mod$1 from 'src';` and
/// `const <pattern> = _mod$1;`.
#[verifier::rlimit(30)]
pub proof fn law_impure_destructuring_goes_to_the_fallback(
    kind: VarDeclKind,
    props: Seq<ObjectPatPropView>,
    src: Seq<char>,
)
    requires
        !pure_destructuring(props),
        settled_pat(PatView::Object(props)),
    ensures
        apply(Pass::PureDestructuredRequire, sole_declaration(kind, destructured(props, src)))
            == untouched(sole_declaration(kind, destructured(props, src))),
        cascade(sole_declaration(kind, destructured(props, src))) == untouched(
            ModuleView {
                body: seq![
                    ModuleItemView::Import(namespace_import(synthetic_name("_mod"@, 1), src)),
                    ModuleItemView::Stmt(
                        StmtView::Var(
                            VarDeclView {
                                kind,
                                decls: seq![
                                    VarDeclaratorView {
                                        name: PatView::Object(props),
                                        init: Some(ExprView::Ident(synthetic_name("_mod"@, 1))),
                                    },
                                ],
                            },
                        ),
                    ),
                ],
            },
        ),
{
    let d = destructured(props, src);
    let m = sole_declaration(kind, d);
    let name = synthetic_name("_mod"@, 1);
    let kept = VarDeclaratorView {
        name: PatView::Object(props),
        init: Some(ExprView::Ident(name)),
    };
    let import = namespace_import(name, src);
    let after = ModuleView {
        body: seq![ModuleItemView::Import(import), sole_declaration(kind, kept).body[0]],
    };
    lemma_destructured_waits(props, src);
    assert(on_declarator(Pass::PureDestructuredRequire, d) == keep(Some(d))) by {
        reveal(on_declarator);
    }
    lemma_declarator_rule_alone(Pass::RequireStatement, d, src, 0);
    lemma_declarator_rule_alone(Pass::RequireIdent, d, src, 0);
    lemma_declarator_rule_alone(Pass::PureDestructuredRequire, d, src, 0);
    lemma_pass_idle_on_sole_declaration(Pass::RequireStatement, kind, d);
    lemma_pass_idle_on_sole_declaration(Pass::RequireIdent, kind, d);
    lemma_pass_idle_on_sole_declaration(Pass::PureDestructuredRequire, kind, d);
    lemma_pass_on_sole_declaration(Pass::PureDestructuredRequire, kind, d);
    assert(flush(m.body, PendingView::empty()) =~= m.body);
    lemma_fallback_on_declarator(props, src);
    lemma_pass_on_sole_declaration(Pass::RequireFallback, kind, d);
    assert(flush(sole_declaration(kind, kept).body, PendingView::import(import)) =~= after.body);
    assert(Seq::<Warning>::empty() + Seq::<Warning>::empty() =~= Seq::<Warning>::empty());
    assert(imports_of(untouched(m)) == untouched(after));
    assert(settled_module(after)) by {
        assert(settled_declarator(kept));
        let decls = seq![kept];
        assert(converted_declarator(decls[0], defaults_gone()) && tidy_declarator(decls[0]));
        let s = sole_declaration(kind, kept).body[0]->Stmt_0;
        assert(converted_stmt(s, defaults_gone()) && tidy_stmt(s));
        assert forall|i: int| 0 <= i < after.body.len() implies converted_item(
            #[trigger] after.body[i],
            defaults_gone(),
        ) && tidy_item(after.body[i]) by {}
    }
    lemma_exports_idle(untouched(after));
}

/// Hoisted constants with settled values, and a settled item after them, make
/// a settled module.
proof fn lemma_hoisted_settled(decls: Seq<VarDeclaratorView>, last: ModuleItemView)
    requires
        forall|j: int|
            0 <= j < decls.len() ==> converted_declarator(#[trigger] decls[j], defaults_gone())
                && tidy_declarator(decls[j]),
        converted_item(last, defaults_gone()),
        tidy_item(last),
    ensures
        settled_module(ModuleView { body: hoisted_items(decls).push(last) }),
{
    let body = hoisted_items(decls).push(last);
    assert forall|i: int| 0 <= i < body.len() implies converted_item(
        #[trigger] body[i],
        defaults_gone(),
    ) && tidy_item(body[i]) by {
        if i < decls.len() {
            let d = seq![decls[i]];
            assert(d[0] == decls[i]);
        }
    }
}

/// No rule of the property pass applies to `module.exports = { .. };`.
proof fn lemma_export_rules_skip_object(props: Seq<PropView>)
    ensures
        ({
            let e = default_export_stmt(ExprView::Object(props))->Expr_0;
            on_expr_stmt(Pass::ModuleExportsNamedExpr, e, 0) == keep(StmtView::Expr(e))
        }),
{
    reveal(on_expr_stmt);
}

/// The object pass on `module.exports = { .. };`, alone in a module.
proof fn lemma_object_pass_on_sole(props: Seq<PropView>)
    requires
        pure_object(props),
        settled_props(props),
    ensures
        apply(Pass::ExportDefaultObject, sole(default_export_stmt(ExprView::Object(props))))
            == untouched(
            ModuleView {
                body: hoisted_items(expand_object(props, 0).decls).push(
                    ModuleItemView::ExportNamed(
                        NamedExportView { specifiers: expand_object(props, 0).specifiers },
                    ),
                ),
            },
        ),
{
    let p = Pass::ExportDefaultObject;
    let s = default_export_stmt(ExprView::Object(props));
    let e = s->Expr_0;
    let x = expand_object(props, 0);
    lemma_assignment_settled(ExprView::Object(props));
    lemma_settled_expr(p, e, 0);
    assert(on_expr_stmt(p, e, 0) == export_of_object(e, 0)) by {
        reveal(on_expr_stmt);
    }
    let r = rw_stmt(p, s, 0);
    lemma_concat_empty(export_of_object(e, 0).out);
    assert(r == export_of_object(e, 0));
    lemma_pass_on_sole_stmt(p, s);
    assert(flush(Seq::<ModuleItemView>::empty(), r.out) =~= hoisted_items(x.decls).push(
        ModuleItemView::ExportNamed(NamedExportView { specifiers: x.specifiers }),
    ));
}

/// `module.exports = { .. };`, alone in a module, where every property can
/// be exported by name and holds nothing for a pass to rewrite: the
/// assignment goes; in its place stand the constants that the expansion
/// declares, one declaration each, and after them one `export { .. }` with
/// one specifier per property; nothing is warned about.
#[verifier::rlimit(30)]
pub proof fn law_object_export_expands(props: Seq<PropView>)
    requires
        pure_object(props),
        settled_props(props),
    ensures
        cascade(sole(default_export_stmt(ExprView::Object(props)))) == untouched(
            ModuleView {
                body: hoisted_items(expand_object(props, 0).decls).push(
                    ModuleItemView::ExportNamed(
                        NamedExportView { specifiers: expand_object(props, 0).specifiers },
                    ),
                ),
            },
        ),
{
    let s = default_export_stmt(ExprView::Object(props));
    let e = s->Expr_0;
    let x = expand_object(props, 0);
    let last = ModuleItemView::ExportNamed(NamedExportView { specifiers: x.specifiers });
    let after = ModuleView { body: hoisted_items(x.decls).push(last) };
    lemma_assignment_settled(ExprView::Object(props));
    lemma_imports_idle_on_sole(e);
    lemma_export_rules_skip_object(props);
    lemma_identifier_pass_defers_on_sole(ExprView::Object(props));
    lemma_pass_idle_on_sole(Pass::ModuleExportsNamedExpr, e);
    lemma_object_pass_on_sole(props);
    assert(Seq::<Warning>::empty() + Seq::<Warning>::empty() =~= Seq::<Warning>::empty());
    lemma_expansion_converted(props, 0, defaults_gone());
    lemma_expansion_tidy(props, 0);
    lemma_hoisted_settled(x.decls, last);
    law_pass_leaves_esm_untouched(Pass::ModuleDefaultExport, after);
}

/// The expansion of `{ a, b: c, d: <value> }`, where `<value>` is no
/// identifier: `a` is exported as it is, `c` is exported as `b`, and the
/// constant `_d$1 = <value>` is declared and exported as `d`.
pub proof fn law_expansion_of_three_properties(
    a: Seq<char>,
    b: Seq<char>,
    c: Seq<char>,
    d: Seq<char>,
    value: ExprView,
)
    requires
        exportable(a),
        exportable(b),
        exportable(d),
        value !is Ident,
    ensures
        ({
            let props = seq![
                PropView::Shorthand(a),
                PropView::KeyValue { key: KeyView::Ident(b), value: ExprView::Ident(c) },
                PropView::KeyValue { key: KeyView::Ident(d), value },
            ];
            let fresh = synthetic_name("_"@ + d, 1);
            &&& pure_object(props)
            &&& expand_object(props, 0) == (Expansion {
                specifiers: seq![
                    ExportSpecifierView { orig: a, exported: None },
                    ExportSpecifierView { orig: c, exported: Some(b) },
                    ExportSpecifierView { orig: fresh, exported: Some(d) },
                ],
                decls: seq![VarDeclaratorView { name: PatView::Ident(fresh), init: Some(value) }],
            })
        }),
{
    let props = seq![
        PropView::Shorthand(a),
        PropView::KeyValue { key: KeyView::Ident(b), value: ExprView::Ident(c) },
        PropView::KeyValue { key: KeyView::Ident(d), value },
    ];
    let two = props.drop_last();
    let one = two.drop_last();
    assert(one.drop_last() =~= Seq::<PropView>::empty());
    reveal_with_fuel(expand_object, 4);
    assert(expand_object(one, 0).specifiers =~= seq![
        ExportSpecifierView { orig: a, exported: None },
    ]);
    assert(expand_object(one, 0).decls =~= Seq::<VarDeclaratorView>::empty());
    assert(expand_object(two, 0).specifiers =~= seq![
        ExportSpecifierView { orig: a, exported: None },
        ExportSpecifierView { orig: c, exported: Some(b) },
    ]);
    assert(expand_object(two, 0).decls =~= Seq::<VarDeclaratorView>::empty());
    let fresh = synthetic_name("_"@ + d, 1);
    assert(expand_object(props, 0) =~~= (Expansion {
        specifiers: seq![
            ExportSpecifierView { orig: a, exported: None },
            ExportSpecifierView { orig: c, exported: Some(b) },
            ExportSpecifierView { orig: fresh, exported: Some(d) },
        ],
        decls: seq![VarDeclaratorView { name: PatView::Ident(fresh), init: Some(value) }],
    }));
}

/// `module.exports = { a, b: c, d: <value> };`, alone in a module, where
/// `<value>` is no identifier and holds nothing for a pass to rewrite,
/// becomes `const _d$1 = <value>;` and `export { a, c as b, _d$1 as d };`.
/// The assignment is gone and nothing is warned about.
#[verifier::rlimit(30)]
pub proof fn law_object_export_of_three_properties(
    a: Seq<char>,
    b: Seq<char>,
    c: Seq<char>,
    d: Seq<char>,
    value: ExprView,
)
    requires
        exportable(a),
        exportable(b),
        exportable(d),
        value !is Ident,
        settled_expr(value),
    ensures
        ({
            let props = seq![
                PropView::Shorthand(a),
                PropView::KeyValue { key: KeyView::Ident(b), value: ExprView::Ident(c) },
                PropView::KeyValue { key: KeyView::Ident(d), value },
            ];
            let fresh = synthetic_name("_"@ + d, 1);
            cascade(sole(default_export_stmt(ExprView::Object(props)))) == untouched(
                ModuleView {
                    body: seq![
                        hoisted_item(
                            VarDeclaratorView { name: PatView::Ident(fresh), init: Some(value) },
                        ),
                        ModuleItemView::ExportNamed(
                            NamedExportView {
                                specifiers: seq![
                                    ExportSpecifierView { orig: a, exported: None },
                                    ExportSpecifierView { orig: c, exported: Some(b) },
                                    ExportSpecifierView { orig: fresh, exported: Some(d) },
                                ],
                            },
                        ),
                    ],
                },
            )
        }),
{
    let props = seq![
        PropView::Shorthand(a),
        PropView::KeyValue { key: KeyView::Ident(b), value: ExprView::Ident(c) },
        PropView::KeyValue { key: KeyView::Ident(d), value },
    ];
    law_expansion_of_three_properties(a, b, c, d, value);
    assert(settled_props(props)) by {
        assert forall|i: int| 0 <= i < props.len() implies converted_prop(
            #[trigger] props[i],
            defaults_gone(),
        ) && tidy_prop(props[i]) by {}
    }
    law_object_export_expands(props);
    let x = expand_object(props, 0);
    let last = ModuleItemView::ExportNamed(NamedExportView { specifiers: x.specifiers });
    assert(hoisted_items(x.decls).push(last) =~= seq![hoisted_item(x.decls[0]), last]);
}

} // verus!
