//! Where no statement assigns to `module.exports`, no pass finds a default
//! export, and the last pass has nothing to warn about.
use crate::ast::{
    AssignExprView, CallExprView, ExprView, KeyView, MemberExprView, ModuleItemView, ModuleView,
    ObjectPatPropView, OtherView, PartView, PatView, PropView, StmtView, VarDeclaratorView,
};
use crate::converted::{lemma_sort_kept, lemma_target_kept};
use crate::frame::lemma_frame_items;
use crate::single_default::{default_exports, lemma_default_exports_after, makes_default};
use crate::traverse::{
    apply, on_declarator, on_expr, on_expr_stmt, rw_assign, rw_call, rw_children, rw_declarator,
    rw_declarators, rw_expr, rw_exprs, rw_item, rw_items, rw_key, rw_member, rw_opt_expr, rw_other,
    rw_part, rw_parts, rw_pat, rw_pat_prop, rw_pat_props, rw_prop, rw_props, rw_stmt, rw_stmts,
};
use crate::utils::is_export_default;
use crate::visitors::{Pass, Warning};
use vstd::prelude::*;

verus! {

/// The expression is an assignment to `module.exports`.
pub open spec fn assigns_default(e: ExprView) -> bool {
    e matches ExprView::Assign(a) && is_export_default(a)
}

/// No statement below the expression assigns to `module.exports`.
pub open spec fn unassigned_below(e: ExprView) -> bool
    decreases e, 0nat,
{
    match e {
        ExprView::Ident(_) => true,
        ExprView::Str(_) => true,
        ExprView::Call(c) => unassigned_call(c),
        ExprView::Member(m) => unassigned_member(m),
        ExprView::Assign(a) => unassigned_assign(a),
        ExprView::Object(props) => unassigned_props(props),
        ExprView::Other(o) => unassigned_other(o),
    }
}

/// No statement in the expression assigns to `module.exports`.
pub open spec fn unassigned_expr(e: ExprView) -> bool
    decreases e, 1nat,
{
    unassigned_below(e)
}

/// No statement assigns to `module.exports` in the sub-trees of a call.
pub open spec fn unassigned_call(c: CallExprView) -> bool
    decreases c, 0nat,
{
    unassigned_expr(*c.callee) && unassigned_exprs(c.args)
}

/// No statement assigns to `module.exports` in the sub-trees of a member access.
pub open spec fn unassigned_member(m: MemberExprView) -> bool
    decreases m, 0nat,
{
    unassigned_expr(*m.obj) && unassigned_key(m.prop)
}

/// No statement assigns to `module.exports` in the sub-trees of an assignment.
pub open spec fn unassigned_assign(a: AssignExprView) -> bool
    decreases a, 0nat,
{
    unassigned_pat(a.left) && unassigned_expr(*a.right)
}

/// No statement assigns to `module.exports` in the arguments of a call.
pub open spec fn unassigned_exprs(s: Seq<ExprView>) -> bool
    decreases s, 0nat,
{
    forall|i: int| 0 <= i < s.len() ==> unassigned_expr(#[trigger] s[i])
}

/// No statement assigns to `module.exports` in an expression that may be absent.
pub open spec fn unassigned_opt_expr(e: Option<ExprView>) -> bool
    decreases e, 0nat,
{
    match e {
        Some(x) => unassigned_expr(x),
        None => true,
    }
}

/// No statement assigns to `module.exports` in a key.
pub open spec fn unassigned_key(x: KeyView) -> bool
    decreases x, 0nat,
{
    match x {
        KeyView::Ident(_) => true,
        KeyView::Str(_) => true,
        KeyView::Computed(e) => unassigned_expr(*e),
        KeyView::Other(o) => unassigned_other(o),
    }
}

/// No statement assigns to `module.exports` in a property of an object literal.
pub open spec fn unassigned_prop(x: PropView) -> bool
    decreases x, 0nat,
{
    match x {
        PropView::Shorthand(_) => true,
        PropView::KeyValue { key, value } => unassigned_key(key) && unassigned_expr(value),
        PropView::Other(o) => unassigned_other(o),
    }
}

/// No statement assigns to `module.exports` in the properties of an object literal.
pub open spec fn unassigned_props(s: Seq<PropView>) -> bool
    decreases s, 0nat,
{
    forall|i: int| 0 <= i < s.len() ==> unassigned_prop(#[trigger] s[i])
}

/// No statement assigns to `module.exports` in a pattern.
pub open spec fn unassigned_pat(x: PatView) -> bool
    decreases x, 0nat,
{
    match x {
        PatView::Ident(_) => true,
        PatView::Object(props) => unassigned_pat_props(props),
        PatView::Expr(e) => unassigned_expr(*e),
        PatView::Other(o) => unassigned_other(o),
    }
}

/// No statement assigns to `module.exports` in a property of an object pattern.
pub open spec fn unassigned_pat_prop(x: ObjectPatPropView) -> bool
    decreases x, 0nat,
{
    match x {
        ObjectPatPropView::Assign { name, default_value } => unassigned_opt_expr(default_value),
        ObjectPatPropView::KeyValue { key, value } => unassigned_key(key) && unassigned_pat(value),
        ObjectPatPropView::Other(o) => unassigned_other(o),
    }
}

/// No statement assigns to `module.exports` in the properties of an object pattern.
pub open spec fn unassigned_pat_props(s: Seq<ObjectPatPropView>) -> bool
    decreases s, 0nat,
{
    forall|i: int| 0 <= i < s.len() ==> unassigned_pat_prop(#[trigger] s[i])
}

/// No statement assigns to `module.exports` in uninterpreted syntax.
pub open spec fn unassigned_other(o: OtherView) -> bool
    decreases o, 0nat,
{
    unassigned_parts(o.parts)
}

/// No statement assigns to `module.exports` in a sub-tree of uninterpreted syntax.
pub open spec fn unassigned_part(x: PartView) -> bool
    decreases x, 0nat,
{
    match x {
        PartView::Expr(e) => unassigned_expr(e),
        PartView::Pat(q) => unassigned_pat(q),
        PartView::Stmt(s) => unassigned_stmt(s),
        PartView::Block(b) => unassigned_stmts(b),
    }
}

/// No statement assigns to `module.exports` in the sub-trees of uninterpreted syntax.
pub open spec fn unassigned_parts(s: Seq<PartView>) -> bool
    decreases s, 0nat,
{
    forall|i: int| 0 <= i < s.len() ==> unassigned_part(#[trigger] s[i])
}

/// No statement assigns to `module.exports` in a declarator.
pub open spec fn unassigned_declarator(d: VarDeclaratorView) -> bool
    decreases d, 0nat,
{
    unassigned_pat(d.name) && unassigned_opt_expr(d.init)
}

/// No statement assigns to `module.exports` in the declarators of a declaration.
pub open spec fn unassigned_declarators(s: Seq<VarDeclaratorView>) -> bool
    decreases s, 0nat,
{
    forall|i: int| 0 <= i < s.len() ==> unassigned_declarator(#[trigger] s[i])
}

/// The statement does not assign to `module.exports`, and no statement in
/// it does.
pub open spec fn unassigned_stmt(s: StmtView) -> bool
    decreases s, 0nat,
{
    match s {
        StmtView::Empty => true,
        StmtView::Expr(e) => unassigned_expr(e) && !assigns_default(e),
        StmtView::Var(d) => unassigned_declarators(d.decls),
        StmtView::Other(o) => unassigned_other(o),
    }
}

/// No statement assigns to `module.exports` in a statement list.
pub open spec fn unassigned_stmts(s: Seq<StmtView>) -> bool
    decreases s, 0nat,
{
    forall|i: int| 0 <= i < s.len() ==> unassigned_stmt(#[trigger] s[i])
}

/// No statement assigns to `module.exports` in an item of a module.
pub open spec fn unassigned_item(item: ModuleItemView) -> bool {
    match item {
        ModuleItemView::Stmt(s) => unassigned_stmt(s),
        ModuleItemView::Import(_) => true,
        ModuleItemView::ExportNamed(_) => true,
        ModuleItemView::ExportDefault(e) => unassigned_expr(e),
        ModuleItemView::ExportConst { name, init } => unassigned_expr(init),
        ModuleItemView::Other(o) => unassigned_other(o),
    }
}

/// No statement assigns to `module.exports` in the items of a module.
pub open spec fn unassigned_items(s: Seq<ModuleItemView>) -> bool {
    forall|i: int| 0 <= i < s.len() ==> unassigned_item(#[trigger] s[i])
}

/// No statement of the module, at any depth, assigns to `module.exports`.
pub open spec fn unassigned_module(m: ModuleView) -> bool {
    unassigned_items(m.body)
}

/// Where nothing assigns to `module.exports`, no default export is found:
/// the sub-trees of a call.
pub proof fn lemma_unassigned_call(p: Pass, x: CallExprView, n: nat)
    requires
        makes_default(p),
        unassigned_call(x),
    ensures
        rw_call(p, x, n).out.default_export is Unset,
    decreases x, 0nat,
{
    lemma_unassigned_expr(p, *x.callee, n);
    lemma_unassigned_exprs(p, x.args, n + rw_expr(p, *x.callee, n).out.issued());
}

/// Where nothing assigns to `module.exports`, no default export is found:
/// the sub-trees of a member access.
pub proof fn lemma_unassigned_member(p: Pass, x: MemberExprView, n: nat)
    requires
        makes_default(p),
        unassigned_member(x),
    ensures
        rw_member(p, x, n).out.default_export is Unset,
    decreases x, 0nat,
{
    lemma_unassigned_expr(p, *x.obj, n);
    lemma_unassigned_key(p, x.prop, n + rw_expr(p, *x.obj, n).out.issued());
}

/// Where nothing assigns to `module.exports`, no default export is found:
/// the sub-trees of an assignment.
pub proof fn lemma_unassigned_assign(p: Pass, x: AssignExprView, n: nat)
    requires
        makes_default(p),
        unassigned_assign(x),
    ensures
        rw_assign(p, x, n).out.default_export is Unset,
    decreases x, 0nat,
{
    lemma_unassigned_pat(p, x.left, n);
    lemma_unassigned_expr(p, *x.right, n + rw_pat(p, x.left, n).out.issued());
}

/// Where nothing assigns to `module.exports`, no default export is found:
/// the sub-trees of an expression.
pub proof fn lemma_unassigned_children(p: Pass, x: ExprView, n: nat)
    requires
        makes_default(p),
        unassigned_below(x),
    ensures
        rw_children(p, x, n).out.default_export is Unset,
    decreases x, 0nat,
{
    match x {
        ExprView::Ident(_) => {},
        ExprView::Str(_) => {},
        ExprView::Call(c) => {
            lemma_unassigned_call(p, c, n);
        },
        ExprView::Member(m) => {
            lemma_unassigned_member(p, m, n);
        },
        ExprView::Assign(a) => {
            lemma_unassigned_assign(p, a, n);
        },
        ExprView::Object(props) => {
            lemma_unassigned_props(p, props, n);
        },
        ExprView::Other(o) => {
            lemma_unassigned_other(p, o, n);
        },
    }
}

/// Where nothing assigns to `module.exports`, no default export is found:
/// an expression.
pub proof fn lemma_unassigned_expr(p: Pass, x: ExprView, n: nat)
    requires
        makes_default(p),
        unassigned_expr(x),
    ensures
        rw_expr(p, x, n).out.default_export is Unset,
    decreases x, 1nat,
{
    lemma_unassigned_children(p, x, n);
    reveal(on_expr);
}

/// Where nothing assigns to `module.exports`, no default export is found:
/// the arguments of a call.
pub proof fn lemma_unassigned_exprs(p: Pass, x: Seq<ExprView>, n: nat)
    requires
        makes_default(p),
        unassigned_exprs(x),
    ensures
        rw_exprs(p, x, n).out.default_export is Unset,
    decreases x, 0nat,
{
    if x.len() > 0 {
        assert forall|i: int| 0 <= i < x.drop_last().len() implies unassigned_expr(
            #[trigger] x.drop_last()[i],
        ) by {
            assert(x.drop_last()[i] == x[i]);
        }
        assert(unassigned_expr(x[x.len() - 1]));
        lemma_unassigned_exprs(p, x.drop_last(), n);
        lemma_unassigned_expr(p, x.last(), n + rw_exprs(p, x.drop_last(), n).out.issued());
    }
}

/// Where nothing assigns to `module.exports`, no default export is found:
/// an expression that may be absent.
pub proof fn lemma_unassigned_opt_expr(p: Pass, x: Option<ExprView>, n: nat)
    requires
        makes_default(p),
        unassigned_opt_expr(x),
    ensures
        rw_opt_expr(p, x, n).out.default_export is Unset,
    decreases x, 0nat,
{
    match x {
        Some(e) => {
            lemma_unassigned_expr(p, e, n);
        },
        None => {},
    }
}

/// Where nothing assigns to `module.exports`, no default export is found:
/// a key.
pub proof fn lemma_unassigned_key(p: Pass, x: KeyView, n: nat)
    requires
        makes_default(p),
        unassigned_key(x),
    ensures
        rw_key(p, x, n).out.default_export is Unset,
    decreases x, 0nat,
{
    match x {
        KeyView::Ident(_) => {},
        KeyView::Str(_) => {},
        KeyView::Computed(e) => {
            lemma_unassigned_expr(p, *e, n);
        },
        KeyView::Other(o) => {
            lemma_unassigned_other(p, o, n);
        },
    }
}

/// Where nothing assigns to `module.exports`, no default export is found:
/// a property of an object literal.
pub proof fn lemma_unassigned_prop(p: Pass, x: PropView, n: nat)
    requires
        makes_default(p),
        unassigned_prop(x),
    ensures
        rw_prop(p, x, n).out.default_export is Unset,
    decreases x, 0nat,
{
    match x {
        PropView::Shorthand(_) => {},
        PropView::KeyValue { key, value } => {
            lemma_unassigned_key(p, key, n);
            lemma_unassigned_expr(p, value, n + rw_key(p, key, n).out.issued());
        },
        PropView::Other(o) => {
            lemma_unassigned_other(p, o, n);
        },
    }
}

/// Where nothing assigns to `module.exports`, no default export is found:
/// the properties of an object literal.
pub proof fn lemma_unassigned_props(p: Pass, x: Seq<PropView>, n: nat)
    requires
        makes_default(p),
        unassigned_props(x),
    ensures
        rw_props(p, x, n).out.default_export is Unset,
    decreases x, 0nat,
{
    if x.len() > 0 {
        assert forall|i: int| 0 <= i < x.drop_last().len() implies unassigned_prop(
            #[trigger] x.drop_last()[i],
        ) by {
            assert(x.drop_last()[i] == x[i]);
        }
        assert(unassigned_prop(x[x.len() - 1]));
        lemma_unassigned_props(p, x.drop_last(), n);
        lemma_unassigned_prop(p, x.last(), n + rw_props(p, x.drop_last(), n).out.issued());
    }
}

/// Where nothing assigns to `module.exports`, no default export is found:
/// a pattern.
pub proof fn lemma_unassigned_pat(p: Pass, x: PatView, n: nat)
    requires
        makes_default(p),
        unassigned_pat(x),
    ensures
        rw_pat(p, x, n).out.default_export is Unset,
    decreases x, 0nat,
{
    match x {
        PatView::Ident(_) => {},
        PatView::Object(props) => {
            lemma_unassigned_pat_props(p, props, n);
        },
        PatView::Expr(e) => {
            lemma_unassigned_expr(p, *e, n);
        },
        PatView::Other(o) => {
            lemma_unassigned_other(p, o, n);
        },
    }
}

/// Where nothing assigns to `module.exports`, no default export is found:
/// a property of an object pattern.
pub proof fn lemma_unassigned_pat_prop(p: Pass, x: ObjectPatPropView, n: nat)
    requires
        makes_default(p),
        unassigned_pat_prop(x),
    ensures
        rw_pat_prop(p, x, n).out.default_export is Unset,
    decreases x, 0nat,
{
    match x {
        ObjectPatPropView::Assign { name, default_value } => {
            lemma_unassigned_opt_expr(p, default_value, n);
        },
        ObjectPatPropView::KeyValue { key, value } => {
            lemma_unassigned_key(p, key, n);
            lemma_unassigned_pat(p, value, n + rw_key(p, key, n).out.issued());
        },
        ObjectPatPropView::Other(o) => {
            lemma_unassigned_other(p, o, n);
        },
    }
}

/// Where nothing assigns to `module.exports`, no default export is found:
/// the properties of an object pattern.
pub proof fn lemma_unassigned_pat_props(p: Pass, x: Seq<ObjectPatPropView>, n: nat)
    requires
        makes_default(p),
        unassigned_pat_props(x),
    ensures
        rw_pat_props(p, x, n).out.default_export is Unset,
    decreases x, 0nat,
{
    if x.len() > 0 {
        assert forall|i: int| 0 <= i < x.drop_last().len() implies unassigned_pat_prop(
            #[trigger] x.drop_last()[i],
        ) by {
            assert(x.drop_last()[i] == x[i]);
        }
        assert(unassigned_pat_prop(x[x.len() - 1]));
        lemma_unassigned_pat_props(p, x.drop_last(), n);
        lemma_unassigned_pat_prop(p, x.last(), n + rw_pat_props(p, x.drop_last(), n).out.issued());
    }
}

/// Where nothing assigns to `module.exports`, no default export is found:
/// uninterpreted syntax.
pub proof fn lemma_unassigned_other(p: Pass, x: OtherView, n: nat)
    requires
        makes_default(p),
        unassigned_other(x),
    ensures
        rw_other(p, x, n).out.default_export is Unset,
    decreases x, 0nat,
{
    lemma_unassigned_parts(p, x.parts, n);
}

/// Where nothing assigns to `module.exports`, no default export is found:
/// a sub-tree of uninterpreted syntax.
pub proof fn lemma_unassigned_part(p: Pass, x: PartView, n: nat)
    requires
        makes_default(p),
        unassigned_part(x),
    ensures
        rw_part(p, x, n).out.default_export is Unset,
    decreases x, 0nat,
{
    match x {
        PartView::Expr(e) => {
            lemma_unassigned_expr(p, e, n);
        },
        PartView::Pat(q) => {
            lemma_unassigned_pat(p, q, n);
        },
        PartView::Stmt(s) => {
            lemma_unassigned_stmt(p, s, n);
        },
        PartView::Block(b) => {
            lemma_unassigned_stmts(p, b, n);
        },
    }
}

/// Where nothing assigns to `module.exports`, no default export is found:
/// the sub-trees of uninterpreted syntax.
pub proof fn lemma_unassigned_parts(p: Pass, x: Seq<PartView>, n: nat)
    requires
        makes_default(p),
        unassigned_parts(x),
    ensures
        rw_parts(p, x, n).out.default_export is Unset,
    decreases x, 0nat,
{
    if x.len() > 0 {
        assert forall|i: int| 0 <= i < x.drop_last().len() implies unassigned_part(
            #[trigger] x.drop_last()[i],
        ) by {
            assert(x.drop_last()[i] == x[i]);
        }
        assert(unassigned_part(x[x.len() - 1]));
        lemma_unassigned_parts(p, x.drop_last(), n);
        lemma_unassigned_part(p, x.last(), n + rw_parts(p, x.drop_last(), n).out.issued());
    }
}

/// Where nothing assigns to `module.exports`, no default export is found:
/// a declarator.
pub proof fn lemma_unassigned_declarator(p: Pass, x: VarDeclaratorView, n: nat)
    requires
        makes_default(p),
        unassigned_declarator(x),
    ensures
        rw_declarator(p, x, n).out.default_export is Unset,
    decreases x, 0nat,
{
    lemma_unassigned_pat(p, x.name, n);
    lemma_unassigned_opt_expr(p, x.init, n + rw_pat(p, x.name, n).out.issued());
    reveal(on_declarator);
}

/// Where nothing assigns to `module.exports`, no default export is found:
/// the declarators of a declaration.
pub proof fn lemma_unassigned_declarators(p: Pass, x: Seq<VarDeclaratorView>, n: nat)
    requires
        makes_default(p),
        unassigned_declarators(x),
    ensures
        rw_declarators(p, x, n).out.default_export is Unset,
    decreases x, 0nat,
{
    if x.len() > 0 {
        assert forall|i: int| 0 <= i < x.drop_last().len() implies unassigned_declarator(
            #[trigger] x.drop_last()[i],
        ) by {
            assert(x.drop_last()[i] == x[i]);
        }
        assert(unassigned_declarator(x[x.len() - 1]));
        lemma_unassigned_declarators(p, x.drop_last(), n);
        let front = rw_declarators(p, x.drop_last(), n);
        lemma_unassigned_declarator(p, x.last(), n + front.out.issued());
    }
}

/// Where nothing assigns to `module.exports`, no default export is found:
/// a statement.
pub proof fn lemma_unassigned_stmt(p: Pass, x: StmtView, n: nat)
    requires
        makes_default(p),
        unassigned_stmt(x),
    ensures
        rw_stmt(p, x, n).out.default_export is Unset,
    decreases x, 0nat,
{
    match x {
        StmtView::Empty => {},
        StmtView::Expr(e) => {
            lemma_unassigned_expr(p, e, n);
            lemma_sort_kept(p, e, n);
            match e {
                ExprView::Assign(a) => {
                    lemma_target_kept(p, a, n);
                },
                _ => {},
            }
            reveal(on_expr_stmt);
        },
        StmtView::Var(d) => {
            lemma_unassigned_declarators(p, d.decls, n);
        },
        StmtView::Other(o) => {
            lemma_unassigned_other(p, o, n);
        },
    }
}

/// Where nothing assigns to `module.exports`, no default export is found:
/// a statement list.
pub proof fn lemma_unassigned_stmts(p: Pass, x: Seq<StmtView>, n: nat)
    requires
        makes_default(p),
        unassigned_stmts(x),
    ensures
        rw_stmts(p, x, n).out.default_export is Unset,
    decreases x, 0nat,
{
    if x.len() > 0 {
        assert forall|i: int| 0 <= i < x.drop_last().len() implies unassigned_stmt(
            #[trigger] x.drop_last()[i],
        ) by {
            assert(x.drop_last()[i] == x[i]);
        }
        assert(unassigned_stmt(x[x.len() - 1]));
        lemma_unassigned_stmts(p, x.drop_last(), n);
        lemma_unassigned_stmt(p, x.last(), n + rw_stmts(p, x.drop_last(), n).out.issued());
    }
}

/// Where nothing assigns to `module.exports`, no default export is found:
/// an item of a module.
pub proof fn lemma_unassigned_item(p: Pass, x: ModuleItemView, n: nat)
    requires
        makes_default(p),
        unassigned_item(x),
    ensures
        rw_item(p, x, n).out.default_export is Unset,
{
    match x {
        ModuleItemView::Stmt(s) => {
            lemma_unassigned_stmt(p, s, n);
        },
        ModuleItemView::Import(_) => {},
        ModuleItemView::ExportNamed(_) => {},
        ModuleItemView::ExportDefault(e) => {
            lemma_unassigned_expr(p, e, n);
        },
        ModuleItemView::ExportConst { name, init } => {
            lemma_unassigned_expr(p, init, n);
        },
        ModuleItemView::Other(o) => {
            lemma_unassigned_other(p, o, n);
        },
    }
}

/// Where nothing assigns to `module.exports`, no default export is found:
/// the items of a module.
pub proof fn lemma_unassigned_items(p: Pass, x: Seq<ModuleItemView>, n: nat)
    requires
        makes_default(p),
        unassigned_items(x),
    ensures
        rw_items(p, x, n).out.default_export is Unset,
    decreases x.len(),
{
    if x.len() > 0 {
        assert forall|i: int| 0 <= i < x.drop_last().len() implies unassigned_item(
            #[trigger] x.drop_last()[i],
        ) by {
            assert(x.drop_last()[i] == x[i]);
        }
        assert(unassigned_item(x[x.len() - 1]));
        lemma_unassigned_items(p, x.drop_last(), n);
        lemma_unassigned_item(p, x.last(), n + rw_items(p, x.drop_last(), n).out.issued());
    }
}

/// A module in which no statement assigns to `module.exports` gets no
/// default export: every pass hands it on with the default exports that it
/// had.
pub proof fn law_no_assignment_no_default_export(p: Pass, m: ModuleView)
    requires
        unassigned_module(m),
    ensures
        apply(p, m) matches Ok(out) ==> default_exports(out.module.body) == default_exports(
            m.body,
        ),
{
    lemma_frame_items(p, m.body, 0);
    if makes_default(p) {
        lemma_unassigned_items(p, m.body, 0);
    }
    lemma_default_exports_after(p, m);
}

/// A module in which no statement assigns to `module.exports` draws no
/// warning from the last pass.
pub proof fn law_no_assignment_no_warning(m: ModuleView)
    requires
        unassigned_module(m),
    ensures
        apply(Pass::ModuleDefaultExport, m) matches Ok(out) && out.warnings
            == Seq::<Warning>::empty(),
{
    reveal(apply);
    let p = Pass::ModuleDefaultExport;
    lemma_frame_items(p, m.body, 0);
    lemma_unassigned_items(p, m.body, 0);
    let r = rw_items(p, m.body, 0);
    assert(r.out.warnings + Seq::<Warning>::empty() =~= Seq::<Warning>::empty());
}

} // verus!
