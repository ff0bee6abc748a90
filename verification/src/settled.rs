//! What every pass leaves alone, and why the cascade is idempotent.
//!
//! A tree is settled when every shape that a rule recognises has been
//! converted in it and it holds no placeholder. No pass changes a settled
//! tree; the cascade hands on nothing but settled modules; so the cascade,
//! run on a module that it has handed on, changes nothing.
use crate::ast::{
    AssignExprView, CallExprView, ExprView, ImportDeclView, KeyView, MemberExprView, ModuleItemView,
    ModuleView, ObjectPatPropView, OtherView, PartView, PatView, PropView, StmtView,
    VarDeclaratorView,
};
use crate::converted::{
    converted_assign, converted_below, converted_call, converted_declarator, converted_declarators,
    converted_expr, converted_exprs, converted_item, converted_items, converted_key,
    converted_member, converted_opt_expr, converted_other, converted_part, converted_parts,
    converted_pat, converted_pat_prop, converted_pat_props, converted_prop, converted_props,
    converted_stmt, converted_stmts, defaults_gone, fully_converted,
    law_cascade_output_is_converted,
};
use crate::tidy::{
    law_cascade_output_is_tidy, tidy_assign, tidy_call, tidy_declarator, tidy_declarators,
    tidy_expr, tidy_exprs, tidy_item, tidy_items, tidy_key, tidy_member, tidy_module, tidy_opt_expr,
    tidy_other, tidy_part, tidy_parts, tidy_pat, tidy_pat_prop, tidy_pat_props, tidy_prop,
    tidy_props, tidy_stmt, tidy_stmts,
};
use crate::transform_cjs::{cascade, exports_of, followed_by, untouched};
use crate::traverse::{
    apply, flush, import_items, lemma_concat_empty, on_declarator, on_expr, on_expr_stmt, rw_assign,
    rw_call, rw_children, rw_declarator, rw_declarators, rw_expr, rw_exprs, rw_item, rw_items,
    rw_key, rw_member, rw_opt_expr, rw_other, rw_part, rw_parts, rw_pat, rw_pat_prop, rw_pat_props,
    rw_prop, rw_props, rw_stmt, rw_stmts, OutputView,
};
use crate::utils::RewriteError;
use crate::visitors::{keep, Pass, PendingView, Warning};
use vstd::prelude::*;

verus! {

/// An expression that no pass changes: it is converted and tidy.
pub open spec fn settled_expr(e: ExprView) -> bool {
    converted_expr(e, defaults_gone()) && tidy_expr(e)
}

/// Expressions that no pass changes.
pub open spec fn settled_exprs(s: Seq<ExprView>) -> bool {
    converted_exprs(s, defaults_gone()) && tidy_exprs(s)
}

/// A key that no pass changes.
pub open spec fn settled_key(k: KeyView) -> bool {
    converted_key(k, defaults_gone()) && tidy_key(k)
}

/// Properties that no pass changes.
pub open spec fn settled_props(s: Seq<PropView>) -> bool {
    converted_props(s, defaults_gone()) && tidy_props(s)
}

/// A pattern that no pass changes.
pub open spec fn settled_pat(x: PatView) -> bool {
    converted_pat(x, defaults_gone()) && tidy_pat(x)
}

/// A declarator that no pass changes.
pub open spec fn settled_declarator(d: VarDeclaratorView) -> bool {
    converted_declarator(d, defaults_gone()) && tidy_declarator(d)
}

/// A module that no pass changes: it is ESM already. It holds, at any depth,
/// no call of `require` with exactly one argument, no statement that assigns
/// to `module.exports`, no statement that assigns anything but an object
/// literal to `module.exports.<name>` or `exports.<name>`, no empty statement
/// in a statement list and no variable declaration without declarators.
pub open spec fn settled_module(m: ModuleView) -> bool {
    fully_converted(m) && tidy_module(m)
}

/// No pass changes the sub-trees of a call where it is settled.
pub proof fn lemma_settled_call(p: Pass, x: CallExprView, n: nat)
    requires
        converted_call(x, defaults_gone()),
        tidy_call(x),
    ensures
        rw_call(p, x, n) == keep(x),
    decreases x, 0nat,
{
    lemma_concat_empty(PendingView::empty());
    lemma_settled_expr(p, *x.callee, n);
    lemma_settled_exprs(p, x.args, n);
}

/// No pass changes the sub-trees of a member access where it is settled.
pub proof fn lemma_settled_member(p: Pass, x: MemberExprView, n: nat)
    requires
        converted_member(x, defaults_gone()),
        tidy_member(x),
    ensures
        rw_member(p, x, n) == keep(x),
    decreases x, 0nat,
{
    lemma_concat_empty(PendingView::empty());
    lemma_settled_expr(p, *x.obj, n);
    lemma_settled_key(p, x.prop, n);
}

/// No pass changes the sub-trees of an assignment where it is settled.
pub proof fn lemma_settled_assign(p: Pass, x: AssignExprView, n: nat)
    requires
        converted_assign(x, defaults_gone()),
        tidy_assign(x),
    ensures
        rw_assign(p, x, n) == keep(x),
    decreases x, 0nat,
{
    lemma_concat_empty(PendingView::empty());
    lemma_settled_pat(p, x.left, n);
    lemma_settled_expr(p, *x.right, n);
}

/// No pass changes the sub-trees of an expression where it is settled.
pub proof fn lemma_settled_children(p: Pass, x: ExprView, n: nat)
    requires
        converted_below(x, defaults_gone()),
        tidy_expr(x),
    ensures
        rw_children(p, x, n) == keep(x),
    decreases x, 0nat,
{
    lemma_concat_empty(PendingView::empty());
    match x {
        ExprView::Ident(_) => {},
        ExprView::Str(_) => {},
        ExprView::Call(c) => {
            lemma_settled_call(p, c, n);
        },
        ExprView::Member(m) => {
            lemma_settled_member(p, m, n);
        },
        ExprView::Assign(a) => {
            lemma_settled_assign(p, a, n);
        },
        ExprView::Object(props) => {
            lemma_settled_props(p, props, n);
        },
        ExprView::Other(o) => {
            lemma_settled_other(p, o, n);
        },
    }
}

/// No pass changes an expression where it is settled.
pub proof fn lemma_settled_expr(p: Pass, x: ExprView, n: nat)
    requires
        converted_expr(x, defaults_gone()),
        tidy_expr(x),
    ensures
        rw_expr(p, x, n) == keep(x),
    decreases x, 1nat,
{
    lemma_concat_empty(PendingView::empty());
    lemma_settled_children(p, x, n);
    reveal(on_expr);
}

/// No pass changes the arguments of a call where it is settled.
pub proof fn lemma_settled_exprs(p: Pass, x: Seq<ExprView>, n: nat)
    requires
        converted_exprs(x, defaults_gone()),
        tidy_exprs(x),
    ensures
        rw_exprs(p, x, n) == keep(x),
    decreases x, 0nat,
{
    lemma_concat_empty(PendingView::empty());
    if x.len() > 0 {
        assert forall|i: int| 0 <= i < x.drop_last().len() implies converted_expr(
            #[trigger] x.drop_last()[i],
            defaults_gone(),
        ) by {
            assert(x.drop_last()[i] == x[i]);
        }
        assert forall|i: int| 0 <= i < x.drop_last().len() implies tidy_expr(
            #[trigger] x.drop_last()[i],
        ) by {
            assert(x.drop_last()[i] == x[i]);
        }
        assert(converted_expr(x[x.len() - 1], defaults_gone()));
        assert(tidy_expr(x[x.len() - 1]));
        lemma_settled_exprs(p, x.drop_last(), n);
        lemma_settled_expr(p, x.last(), n);
        assert(x.drop_last().push(x.last()) =~= x);
    } else {
        assert(x =~= Seq::empty());
    }
}

/// No pass changes an expression that may be absent where it is settled.
pub proof fn lemma_settled_opt_expr(p: Pass, x: Option<ExprView>, n: nat)
    requires
        converted_opt_expr(x, defaults_gone()),
        tidy_opt_expr(x),
    ensures
        rw_opt_expr(p, x, n) == keep(x),
    decreases x, 0nat,
{
    lemma_concat_empty(PendingView::empty());
    match x {
        Some(e) => {
            lemma_settled_expr(p, e, n);
        },
        None => {},
    }
}

/// No pass changes a key where it is settled.
pub proof fn lemma_settled_key(p: Pass, x: KeyView, n: nat)
    requires
        converted_key(x, defaults_gone()),
        tidy_key(x),
    ensures
        rw_key(p, x, n) == keep(x),
    decreases x, 0nat,
{
    lemma_concat_empty(PendingView::empty());
    match x {
        KeyView::Ident(_) => {},
        KeyView::Str(_) => {},
        KeyView::Computed(e) => {
            lemma_settled_expr(p, *e, n);
        },
        KeyView::Other(o) => {
            lemma_settled_other(p, o, n);
        },
    }
}

/// No pass changes a property of an object literal where it is settled.
pub proof fn lemma_settled_prop(p: Pass, x: PropView, n: nat)
    requires
        converted_prop(x, defaults_gone()),
        tidy_prop(x),
    ensures
        rw_prop(p, x, n) == keep(x),
    decreases x, 0nat,
{
    lemma_concat_empty(PendingView::empty());
    match x {
        PropView::Shorthand(_) => {},
        PropView::KeyValue { key, value } => {
            lemma_settled_key(p, key, n);
            lemma_settled_expr(p, value, n);
        },
        PropView::Other(o) => {
            lemma_settled_other(p, o, n);
        },
    }
}

/// No pass changes the properties of an object literal where it is settled.
pub proof fn lemma_settled_props(p: Pass, x: Seq<PropView>, n: nat)
    requires
        converted_props(x, defaults_gone()),
        tidy_props(x),
    ensures
        rw_props(p, x, n) == keep(x),
    decreases x, 0nat,
{
    lemma_concat_empty(PendingView::empty());
    if x.len() > 0 {
        assert forall|i: int| 0 <= i < x.drop_last().len() implies converted_prop(
            #[trigger] x.drop_last()[i],
            defaults_gone(),
        ) by {
            assert(x.drop_last()[i] == x[i]);
        }
        assert forall|i: int| 0 <= i < x.drop_last().len() implies tidy_prop(
            #[trigger] x.drop_last()[i],
        ) by {
            assert(x.drop_last()[i] == x[i]);
        }
        assert(converted_prop(x[x.len() - 1], defaults_gone()));
        assert(tidy_prop(x[x.len() - 1]));
        lemma_settled_props(p, x.drop_last(), n);
        lemma_settled_prop(p, x.last(), n);
        assert(x.drop_last().push(x.last()) =~= x);
    } else {
        assert(x =~= Seq::empty());
    }
}

/// No pass changes a pattern where it is settled.
pub proof fn lemma_settled_pat(p: Pass, x: PatView, n: nat)
    requires
        converted_pat(x, defaults_gone()),
        tidy_pat(x),
    ensures
        rw_pat(p, x, n) == keep(x),
    decreases x, 0nat,
{
    lemma_concat_empty(PendingView::empty());
    match x {
        PatView::Ident(_) => {},
        PatView::Object(props) => {
            lemma_settled_pat_props(p, props, n);
        },
        PatView::Expr(e) => {
            lemma_settled_expr(p, *e, n);
        },
        PatView::Other(o) => {
            lemma_settled_other(p, o, n);
        },
    }
}

/// No pass changes a property of an object pattern where it is settled.
pub proof fn lemma_settled_pat_prop(p: Pass, x: ObjectPatPropView, n: nat)
    requires
        converted_pat_prop(x, defaults_gone()),
        tidy_pat_prop(x),
    ensures
        rw_pat_prop(p, x, n) == keep(x),
    decreases x, 0nat,
{
    lemma_concat_empty(PendingView::empty());
    match x {
        ObjectPatPropView::Assign { name, default_value } => {
            lemma_settled_opt_expr(p, default_value, n);
        },
        ObjectPatPropView::KeyValue { key, value } => {
            lemma_settled_key(p, key, n);
            lemma_settled_pat(p, value, n);
        },
        ObjectPatPropView::Other(o) => {
            lemma_settled_other(p, o, n);
        },
    }
}

/// No pass changes the properties of an object pattern where it is settled.
pub proof fn lemma_settled_pat_props(p: Pass, x: Seq<ObjectPatPropView>, n: nat)
    requires
        converted_pat_props(x, defaults_gone()),
        tidy_pat_props(x),
    ensures
        rw_pat_props(p, x, n) == keep(x),
    decreases x, 0nat,
{
    lemma_concat_empty(PendingView::empty());
    if x.len() > 0 {
        assert forall|i: int| 0 <= i < x.drop_last().len() implies converted_pat_prop(
            #[trigger] x.drop_last()[i],
            defaults_gone(),
        ) by {
            assert(x.drop_last()[i] == x[i]);
        }
        assert forall|i: int| 0 <= i < x.drop_last().len() implies tidy_pat_prop(
            #[trigger] x.drop_last()[i],
        ) by {
            assert(x.drop_last()[i] == x[i]);
        }
        assert(converted_pat_prop(x[x.len() - 1], defaults_gone()));
        assert(tidy_pat_prop(x[x.len() - 1]));
        lemma_settled_pat_props(p, x.drop_last(), n);
        lemma_settled_pat_prop(p, x.last(), n);
        assert(x.drop_last().push(x.last()) =~= x);
    } else {
        assert(x =~= Seq::empty());
    }
}

/// No pass changes uninterpreted syntax where it is settled.
pub proof fn lemma_settled_other(p: Pass, x: OtherView, n: nat)
    requires
        converted_other(x, defaults_gone()),
        tidy_other(x),
    ensures
        rw_other(p, x, n) == keep(x),
    decreases x, 0nat,
{
    lemma_concat_empty(PendingView::empty());
    lemma_settled_parts(p, x.parts, n);
}

/// No pass changes a sub-tree of uninterpreted syntax where it is settled.
pub proof fn lemma_settled_part(p: Pass, x: PartView, n: nat)
    requires
        converted_part(x, defaults_gone()),
        tidy_part(x),
    ensures
        rw_part(p, x, n) == keep(x),
    decreases x, 0nat,
{
    lemma_concat_empty(PendingView::empty());
    match x {
        PartView::Expr(e) => {
            lemma_settled_expr(p, e, n);
        },
        PartView::Pat(q) => {
            lemma_settled_pat(p, q, n);
        },
        PartView::Stmt(s) => {
            lemma_settled_stmt(p, s, n);
        },
        PartView::Block(b) => {
            lemma_settled_stmts(p, b, n);
        },
    }
}

/// No pass changes the sub-trees of uninterpreted syntax where it is settled.
pub proof fn lemma_settled_parts(p: Pass, x: Seq<PartView>, n: nat)
    requires
        converted_parts(x, defaults_gone()),
        tidy_parts(x),
    ensures
        rw_parts(p, x, n) == keep(x),
    decreases x, 0nat,
{
    lemma_concat_empty(PendingView::empty());
    if x.len() > 0 {
        assert forall|i: int| 0 <= i < x.drop_last().len() implies converted_part(
            #[trigger] x.drop_last()[i],
            defaults_gone(),
        ) by {
            assert(x.drop_last()[i] == x[i]);
        }
        assert forall|i: int| 0 <= i < x.drop_last().len() implies tidy_part(
            #[trigger] x.drop_last()[i],
        ) by {
            assert(x.drop_last()[i] == x[i]);
        }
        assert(converted_part(x[x.len() - 1], defaults_gone()));
        assert(tidy_part(x[x.len() - 1]));
        lemma_settled_parts(p, x.drop_last(), n);
        lemma_settled_part(p, x.last(), n);
        assert(x.drop_last().push(x.last()) =~= x);
    } else {
        assert(x =~= Seq::empty());
    }
}

/// No pass changes a declarator where it is settled.
pub proof fn lemma_settled_declarator(p: Pass, x: VarDeclaratorView, n: nat)
    requires
        converted_declarator(x, defaults_gone()),
        tidy_declarator(x),
    ensures
        rw_declarator(p, x, n) == keep(Some(x)),
    decreases x, 0nat,
{
    lemma_concat_empty(PendingView::empty());
    lemma_settled_pat(p, x.name, n);
    lemma_settled_opt_expr(p, x.init, n);
    reveal(on_declarator);
}

/// No pass changes the declarators of a declaration where it is settled.
pub proof fn lemma_settled_declarators(p: Pass, x: Seq<VarDeclaratorView>, n: nat)
    requires
        converted_declarators(x, defaults_gone()),
        tidy_declarators(x),
    ensures
        rw_declarators(p, x, n) == keep(x),
    decreases x, 0nat,
{
    lemma_concat_empty(PendingView::empty());
    if x.len() > 0 {
        assert forall|i: int| 0 <= i < x.drop_last().len() implies converted_declarator(
            #[trigger] x.drop_last()[i],
            defaults_gone(),
        ) by {
            assert(x.drop_last()[i] == x[i]);
        }
        assert forall|i: int| 0 <= i < x.drop_last().len() implies tidy_declarator(
            #[trigger] x.drop_last()[i],
        ) by {
            assert(x.drop_last()[i] == x[i]);
        }
        assert(converted_declarator(x[x.len() - 1], defaults_gone()));
        assert(tidy_declarator(x[x.len() - 1]));
        lemma_settled_declarators(p, x.drop_last(), n);
        lemma_settled_declarator(p, x.last(), n);
        assert(x.drop_last().push(x.last()) =~= x);
    } else {
        assert(x =~= Seq::empty());
    }
}

/// No pass changes a statement where it is settled.
pub proof fn lemma_settled_stmt(p: Pass, x: StmtView, n: nat)
    requires
        converted_stmt(x, defaults_gone()),
        tidy_stmt(x),
    ensures
        rw_stmt(p, x, n) == keep(x),
    decreases x, 0nat,
{
    lemma_concat_empty(PendingView::empty());
    match x {
        StmtView::Empty => {},
        StmtView::Expr(e) => {
            lemma_settled_expr(p, e, n);
            reveal(on_expr_stmt);
        },
        StmtView::Var(d) => {
            lemma_settled_declarators(p, d.decls, n);
        },
        StmtView::Other(o) => {
            lemma_settled_other(p, o, n);
        },
    }
}

/// No pass changes a statement list where it is settled.
pub proof fn lemma_settled_stmts(p: Pass, x: Seq<StmtView>, n: nat)
    requires
        converted_stmts(x, defaults_gone()),
        tidy_stmts(x),
    ensures
        rw_stmts(p, x, n) == keep(x),
    decreases x, 0nat,
{
    lemma_concat_empty(PendingView::empty());
    if x.len() > 0 {
        assert forall|i: int| 0 <= i < x.drop_last().len() implies converted_stmt(
            #[trigger] x.drop_last()[i],
            defaults_gone(),
        ) by {
            assert(x.drop_last()[i] == x[i]);
        }
        assert forall|i: int| 0 <= i < x.drop_last().len() implies tidy_stmt(
            #[trigger] x.drop_last()[i],
        ) && x.drop_last()[i] !is Empty by {
            assert(x.drop_last()[i] == x[i]);
        }
        assert(converted_stmt(x[x.len() - 1], defaults_gone()));
        assert(tidy_stmt(x[x.len() - 1]) && x[x.len() - 1] !is Empty);
        lemma_settled_stmts(p, x.drop_last(), n);
        lemma_settled_stmt(p, x.last(), n);
        assert(x.drop_last().push(x.last()) =~= x);
    } else {
        assert(x =~= Seq::empty());
    }
}

/// No pass changes an item of a module where it is settled.
pub proof fn lemma_settled_item(p: Pass, x: ModuleItemView, n: nat)
    requires
        converted_item(x, defaults_gone()),
        tidy_item(x),
    ensures
        rw_item(p, x, n) == keep(x),
{
    match x {
        ModuleItemView::Stmt(s) => {
            lemma_settled_stmt(p, s, n);
        },
        ModuleItemView::Import(_) => {},
        ModuleItemView::ExportNamed(_) => {},
        ModuleItemView::ExportDefault(e) => {
            lemma_settled_expr(p, e, n);
        },
        ModuleItemView::ExportConst { name, init } => {
            lemma_settled_expr(p, init, n);
        },
        ModuleItemView::Other(o) => {
            lemma_settled_other(p, o, n);
        },
    }
}

/// No pass changes the items of a module where it is settled.
pub proof fn lemma_settled_items(p: Pass, x: Seq<ModuleItemView>, n: nat)
    requires
        converted_items(x, defaults_gone()),
        tidy_items(x),
    ensures
        rw_items(p, x, n) == keep(x),
    decreases x.len(),
{
    lemma_concat_empty(PendingView::empty());
    if x.len() > 0 {
        assert forall|i: int| 0 <= i < x.drop_last().len() implies converted_item(
            #[trigger] x.drop_last()[i],
            defaults_gone(),
        ) by {
            assert(x.drop_last()[i] == x[i]);
        }
        assert forall|i: int| 0 <= i < x.drop_last().len() implies tidy_item(
            #[trigger] x.drop_last()[i],
        ) by {
            assert(x.drop_last()[i] == x[i]);
        }
        assert(converted_item(x[x.len() - 1], defaults_gone()));
        assert(tidy_item(x[x.len() - 1]));
        lemma_settled_items(p, x.drop_last(), n);
        lemma_settled_item(p, x.last(), n);
        assert(x.drop_last().push(x.last()) =~= x);
    } else {
        assert(x =~= Seq::empty());
    }
}

/// Every pass leaves a settled module as it is and has nothing to say about
/// it.
pub proof fn law_pass_leaves_esm_untouched(p: Pass, m: ModuleView)
    requires
        settled_module(m),
    ensures
        apply(p, m) == untouched(m),
{
    reveal(apply);
    lemma_settled_items(p, m.body, 0);
    assert(flush(m.body, PendingView::empty()) =~= m.body);
}

/// Running the cascade on a module that is ESM already changes nothing: the
/// module comes back as it went in, without a warning.
pub proof fn law_cascade_leaves_esm_untouched(m: ModuleView)
    requires
        settled_module(m),
    ensures
        cascade(m) == untouched(m),
{
    law_pass_leaves_esm_untouched(Pass::RequireStatement, m);
    law_pass_leaves_esm_untouched(Pass::RequireIdent, m);
    law_pass_leaves_esm_untouched(Pass::PureDestructuredRequire, m);
    law_pass_leaves_esm_untouched(Pass::RequireFallback, m);
    law_pass_leaves_esm_untouched(Pass::ModuleExportsIdent, m);
    law_pass_leaves_esm_untouched(Pass::ModuleExportsNamedExpr, m);
    law_pass_leaves_esm_untouched(Pass::ExportDefaultObject, m);
    law_pass_leaves_esm_untouched(Pass::ModuleDefaultExport, m);
    assert(Seq::<Warning>::empty() + Seq::<Warning>::empty() =~= Seq::<Warning>::empty());
}

/// The cascade is idempotent: run on a module that it has handed on, it
/// hands the same module on again, and has nothing to warn about.
pub proof fn law_cascade_is_idempotent(m: ModuleView)
    ensures
        cascade(m) matches Ok(out) ==> cascade(out.module) == untouched(out.module),
{
    if cascade(m) is Ok {
        law_cascade_output_is_converted(m);
        law_cascade_output_is_tidy(m);
        law_cascade_leaves_esm_untouched(cascade(m)->Ok_0.module);
    }
}

/// A module of imports only is settled.
pub proof fn lemma_imports_settled(imports: Seq<ImportDeclView>)
    ensures
        settled_module(ModuleView { body: import_items(imports) }),
{
    let body = import_items(imports);
    assert forall|i: int| 0 <= i < body.len() implies converted_item(
        #[trigger] body[i],
        defaults_gone(),
    ) && tidy_item(body[i]) by {}
}

/// What follows when every later pass finds nothing to do.
pub proof fn lemma_rest_of_cascade_idle(first: Result<OutputView, RewriteError>)
    requires
        first is Ok,
        settled_module(first->Ok_0.module),
    ensures
        followed_by(first, Pass::RequireIdent) == first,
        followed_by(first, Pass::PureDestructuredRequire) == first,
        followed_by(first, Pass::RequireFallback) == first,
        followed_by(first, Pass::ModuleExportsIdent) == first,
        followed_by(first, Pass::ModuleExportsNamedExpr) == first,
        followed_by(first, Pass::ExportDefaultObject) == first,
        followed_by(first, Pass::ModuleDefaultExport) == first,
{
    let m = first->Ok_0.module;
    law_pass_leaves_esm_untouched(Pass::RequireIdent, m);
    law_pass_leaves_esm_untouched(Pass::PureDestructuredRequire, m);
    law_pass_leaves_esm_untouched(Pass::RequireFallback, m);
    law_pass_leaves_esm_untouched(Pass::ModuleExportsIdent, m);
    law_pass_leaves_esm_untouched(Pass::ModuleExportsNamedExpr, m);
    law_pass_leaves_esm_untouched(Pass::ExportDefaultObject, m);
    law_pass_leaves_esm_untouched(Pass::ModuleDefaultExport, m);
    assert(first->Ok_0.warnings + Seq::<Warning>::empty() =~= first->Ok_0.warnings);
}

/// What follows when every export pass finds nothing to do.
pub proof fn lemma_exports_idle(prev: Result<OutputView, RewriteError>)
    requires
        prev is Ok,
        settled_module(prev->Ok_0.module),
    ensures
        exports_of(prev) == prev,
{
    lemma_rest_of_cascade_idle(prev);
}

} // verus!
