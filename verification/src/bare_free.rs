//! Where no statement is a call of `require`, the statement pass changes
//! nothing.
use crate::ast::{
    AssignExprView, CallExprView, ExprView, KeyView, MemberExprView, ModuleItemView, ModuleView,
    ObjectPatPropView, OtherView, PartView, PatView, PropView, StmtView, VarDeclaratorView,
};
use crate::tidy::{
    tidy_assign, tidy_call, tidy_declarator, tidy_declarators, tidy_expr, tidy_exprs, tidy_item,
    tidy_items, tidy_key, tidy_member, tidy_module, tidy_opt_expr, tidy_other, tidy_part,
    tidy_parts, tidy_pat, tidy_pat_prop, tidy_pat_props, tidy_prop, tidy_props, tidy_stmt,
    tidy_stmts,
};
use crate::transform_cjs::untouched;
use crate::traverse::{
    apply, flush, lemma_concat_empty, on_declarator, on_expr, on_expr_stmt, rw_assign, rw_call,
    rw_children, rw_declarator, rw_declarators, rw_expr, rw_exprs, rw_item, rw_items, rw_key,
    rw_member, rw_opt_expr, rw_other, rw_part, rw_parts, rw_pat, rw_pat_prop, rw_pat_props, rw_prop,
    rw_props, rw_stmt, rw_stmts,
};
use crate::utils::require_call;
use crate::visitors::{keep, Pass, PendingView};
use vstd::prelude::*;

verus! {

/// No statement below the expression is a call of `require`.
pub open spec fn bare_free_below(e: ExprView) -> bool
    decreases e, 0nat,
{
    match e {
        ExprView::Ident(_) => true,
        ExprView::Str(_) => true,
        ExprView::Call(c) => bare_free_call(c),
        ExprView::Member(m) => bare_free_member(m),
        ExprView::Assign(a) => bare_free_assign(a),
        ExprView::Object(props) => bare_free_props(props),
        ExprView::Other(o) => bare_free_other(o),
    }
}

/// No statement in the expression is a call of `require`.
pub open spec fn bare_free_expr(e: ExprView) -> bool
    decreases e, 1nat,
{
    bare_free_below(e)
}

/// No statement is a call of `require` in the sub-trees of a call.
pub open spec fn bare_free_call(c: CallExprView) -> bool
    decreases c, 0nat,
{
    bare_free_expr(*c.callee) && bare_free_exprs(c.args)
}

/// No statement is a call of `require` in the sub-trees of a member access.
pub open spec fn bare_free_member(m: MemberExprView) -> bool
    decreases m, 0nat,
{
    bare_free_expr(*m.obj) && bare_free_key(m.prop)
}

/// No statement is a call of `require` in the sub-trees of an assignment.
pub open spec fn bare_free_assign(a: AssignExprView) -> bool
    decreases a, 0nat,
{
    bare_free_pat(a.left) && bare_free_expr(*a.right)
}

/// No statement is a call of `require` in the arguments of a call.
pub open spec fn bare_free_exprs(s: Seq<ExprView>) -> bool
    decreases s, 0nat,
{
    forall|i: int| 0 <= i < s.len() ==> bare_free_expr(#[trigger] s[i])
}

/// No statement is a call of `require` in an expression that may be absent.
pub open spec fn bare_free_opt_expr(e: Option<ExprView>) -> bool
    decreases e, 0nat,
{
    match e {
        Some(x) => bare_free_expr(x),
        None => true,
    }
}

/// No statement is a call of `require` in a key.
pub open spec fn bare_free_key(x: KeyView) -> bool
    decreases x, 0nat,
{
    match x {
        KeyView::Ident(_) => true,
        KeyView::Str(_) => true,
        KeyView::Computed(e) => bare_free_expr(*e),
        KeyView::Other(o) => bare_free_other(o),
    }
}

/// No statement is a call of `require` in a property of an object literal.
pub open spec fn bare_free_prop(x: PropView) -> bool
    decreases x, 0nat,
{
    match x {
        PropView::Shorthand(_) => true,
        PropView::KeyValue { key, value } => bare_free_key(key) && bare_free_expr(value),
        PropView::Other(o) => bare_free_other(o),
    }
}

/// No statement is a call of `require` in the properties of an object literal.
pub open spec fn bare_free_props(s: Seq<PropView>) -> bool
    decreases s, 0nat,
{
    forall|i: int| 0 <= i < s.len() ==> bare_free_prop(#[trigger] s[i])
}

/// No statement is a call of `require` in a pattern.
pub open spec fn bare_free_pat(x: PatView) -> bool
    decreases x, 0nat,
{
    match x {
        PatView::Ident(_) => true,
        PatView::Object(props) => bare_free_pat_props(props),
        PatView::Expr(e) => bare_free_expr(*e),
        PatView::Other(o) => bare_free_other(o),
    }
}

/// No statement is a call of `require` in a property of an object pattern.
pub open spec fn bare_free_pat_prop(x: ObjectPatPropView) -> bool
    decreases x, 0nat,
{
    match x {
        ObjectPatPropView::Assign { name, default_value } => bare_free_opt_expr(default_value),
        ObjectPatPropView::KeyValue { key, value } => bare_free_key(key) && bare_free_pat(value),
        ObjectPatPropView::Other(o) => bare_free_other(o),
    }
}

/// No statement is a call of `require` in the properties of an object pattern.
pub open spec fn bare_free_pat_props(s: Seq<ObjectPatPropView>) -> bool
    decreases s, 0nat,
{
    forall|i: int| 0 <= i < s.len() ==> bare_free_pat_prop(#[trigger] s[i])
}

/// No statement is a call of `require` in uninterpreted syntax.
pub open spec fn bare_free_other(o: OtherView) -> bool
    decreases o, 0nat,
{
    bare_free_parts(o.parts)
}

/// No statement is a call of `require` in a sub-tree of uninterpreted syntax.
pub open spec fn bare_free_part(x: PartView) -> bool
    decreases x, 0nat,
{
    match x {
        PartView::Expr(e) => bare_free_expr(e),
        PartView::Pat(q) => bare_free_pat(q),
        PartView::Stmt(s) => bare_free_stmt(s),
        PartView::Block(b) => bare_free_stmts(b),
    }
}

/// No statement is a call of `require` in the sub-trees of uninterpreted syntax.
pub open spec fn bare_free_parts(s: Seq<PartView>) -> bool
    decreases s, 0nat,
{
    forall|i: int| 0 <= i < s.len() ==> bare_free_part(#[trigger] s[i])
}

/// No statement is a call of `require` in a declarator.
pub open spec fn bare_free_declarator(d: VarDeclaratorView) -> bool
    decreases d, 0nat,
{
    bare_free_pat(d.name) && bare_free_opt_expr(d.init)
}

/// No statement is a call of `require` in the declarators of a declaration.
pub open spec fn bare_free_declarators(s: Seq<VarDeclaratorView>) -> bool
    decreases s, 0nat,
{
    forall|i: int| 0 <= i < s.len() ==> bare_free_declarator(#[trigger] s[i])
}

/// The statement is no call of `require`, and no statement in it is.
pub open spec fn bare_free_stmt(s: StmtView) -> bool
    decreases s, 0nat,
{
    match s {
        StmtView::Empty => true,
        StmtView::Expr(e) => bare_free_expr(e) && require_call(e) is NotRequire,
        StmtView::Var(d) => bare_free_declarators(d.decls),
        StmtView::Other(o) => bare_free_other(o),
    }
}

/// No statement is a call of `require` in a statement list.
pub open spec fn bare_free_stmts(s: Seq<StmtView>) -> bool
    decreases s, 0nat,
{
    forall|i: int| 0 <= i < s.len() ==> bare_free_stmt(#[trigger] s[i])
}

/// No statement is a call of `require` in an item of a module.
pub open spec fn bare_free_item(item: ModuleItemView) -> bool {
    match item {
        ModuleItemView::Stmt(s) => bare_free_stmt(s),
        ModuleItemView::Import(_) => true,
        ModuleItemView::ExportNamed(_) => true,
        ModuleItemView::ExportDefault(e) => bare_free_expr(e),
        ModuleItemView::ExportConst { name, init } => bare_free_expr(init),
        ModuleItemView::Other(o) => bare_free_other(o),
    }
}

/// No statement is a call of `require` in the items of a module.
pub open spec fn bare_free_items(s: Seq<ModuleItemView>) -> bool {
    forall|i: int| 0 <= i < s.len() ==> bare_free_item(#[trigger] s[i])
}

/// The statement pass leaves alone the sub-trees of a call without a statement that
/// calls `require`.
pub proof fn lemma_bare_free_call(p: Pass, x: CallExprView, n: nat)
    requires
        p == Pass::RequireStatement,
        bare_free_call(x),
        tidy_call(x),
    ensures
        rw_call(p, x, n) == keep(x),
    decreases x, 0nat,
{
    lemma_concat_empty(PendingView::empty());
    lemma_bare_free_expr(p, *x.callee, n);
    lemma_bare_free_exprs(p, x.args, n);
}

/// The statement pass leaves alone the sub-trees of a member access without a statement that
/// calls `require`.
pub proof fn lemma_bare_free_member(p: Pass, x: MemberExprView, n: nat)
    requires
        p == Pass::RequireStatement,
        bare_free_member(x),
        tidy_member(x),
    ensures
        rw_member(p, x, n) == keep(x),
    decreases x, 0nat,
{
    lemma_concat_empty(PendingView::empty());
    lemma_bare_free_expr(p, *x.obj, n);
    lemma_bare_free_key(p, x.prop, n);
}

/// The statement pass leaves alone the sub-trees of an assignment without a statement that
/// calls `require`.
pub proof fn lemma_bare_free_assign(p: Pass, x: AssignExprView, n: nat)
    requires
        p == Pass::RequireStatement,
        bare_free_assign(x),
        tidy_assign(x),
    ensures
        rw_assign(p, x, n) == keep(x),
    decreases x, 0nat,
{
    lemma_concat_empty(PendingView::empty());
    lemma_bare_free_pat(p, x.left, n);
    lemma_bare_free_expr(p, *x.right, n);
}

/// The statement pass leaves alone the sub-trees of an expression without a statement that
/// calls `require`.
pub proof fn lemma_bare_free_children(p: Pass, x: ExprView, n: nat)
    requires
        p == Pass::RequireStatement,
        bare_free_below(x),
        tidy_expr(x),
    ensures
        rw_children(p, x, n) == keep(x),
    decreases x, 0nat,
{
    lemma_concat_empty(PendingView::empty());
    match x {
        ExprView::Ident(_) => {},
        ExprView::Str(_) => {},
        ExprView::Call(c) => {
            lemma_bare_free_call(p, c, n);
        },
        ExprView::Member(m) => {
            lemma_bare_free_member(p, m, n);
        },
        ExprView::Assign(a) => {
            lemma_bare_free_assign(p, a, n);
        },
        ExprView::Object(props) => {
            lemma_bare_free_props(p, props, n);
        },
        ExprView::Other(o) => {
            lemma_bare_free_other(p, o, n);
        },
    }
}

/// The statement pass leaves alone an expression without a statement that
/// calls `require`.
pub proof fn lemma_bare_free_expr(p: Pass, x: ExprView, n: nat)
    requires
        p == Pass::RequireStatement,
        bare_free_expr(x),
        tidy_expr(x),
    ensures
        rw_expr(p, x, n) == keep(x),
    decreases x, 1nat,
{
    lemma_concat_empty(PendingView::empty());
    lemma_bare_free_children(p, x, n);
    reveal(on_expr);
}

/// The statement pass leaves alone the arguments of a call without a statement that
/// calls `require`.
pub proof fn lemma_bare_free_exprs(p: Pass, x: Seq<ExprView>, n: nat)
    requires
        p == Pass::RequireStatement,
        bare_free_exprs(x),
        tidy_exprs(x),
    ensures
        rw_exprs(p, x, n) == keep(x),
    decreases x, 0nat,
{
    lemma_concat_empty(PendingView::empty());
    if x.len() > 0 {
        assert forall|i: int| 0 <= i < x.drop_last().len() implies bare_free_expr(
            #[trigger] x.drop_last()[i],
        ) by {
            assert(x.drop_last()[i] == x[i]);
        }
        assert forall|i: int| 0 <= i < x.drop_last().len() implies tidy_expr(
            #[trigger] x.drop_last()[i],
        ) by {
            assert(x.drop_last()[i] == x[i]);
        }
        assert(bare_free_expr(x[x.len() - 1]));
        assert(tidy_expr(x[x.len() - 1]));
        lemma_bare_free_exprs(p, x.drop_last(), n);
        lemma_bare_free_expr(p, x.last(), n);
        assert(x.drop_last().push(x.last()) =~= x);
    } else {
        assert(x =~= Seq::empty());
    }
}

/// The statement pass leaves alone an expression that may be absent without a statement that
/// calls `require`.
pub proof fn lemma_bare_free_opt_expr(p: Pass, x: Option<ExprView>, n: nat)
    requires
        p == Pass::RequireStatement,
        bare_free_opt_expr(x),
        tidy_opt_expr(x),
    ensures
        rw_opt_expr(p, x, n) == keep(x),
    decreases x, 0nat,
{
    lemma_concat_empty(PendingView::empty());
    match x {
        Some(e) => {
            lemma_bare_free_expr(p, e, n);
        },
        None => {},
    }
}

/// The statement pass leaves alone a key without a statement that
/// calls `require`.
pub proof fn lemma_bare_free_key(p: Pass, x: KeyView, n: nat)
    requires
        p == Pass::RequireStatement,
        bare_free_key(x),
        tidy_key(x),
    ensures
        rw_key(p, x, n) == keep(x),
    decreases x, 0nat,
{
    lemma_concat_empty(PendingView::empty());
    match x {
        KeyView::Ident(_) => {},
        KeyView::Str(_) => {},
        KeyView::Computed(e) => {
            lemma_bare_free_expr(p, *e, n);
        },
        KeyView::Other(o) => {
            lemma_bare_free_other(p, o, n);
        },
    }
}

/// The statement pass leaves alone a property of an object literal without a statement that
/// calls `require`.
pub proof fn lemma_bare_free_prop(p: Pass, x: PropView, n: nat)
    requires
        p == Pass::RequireStatement,
        bare_free_prop(x),
        tidy_prop(x),
    ensures
        rw_prop(p, x, n) == keep(x),
    decreases x, 0nat,
{
    lemma_concat_empty(PendingView::empty());
    match x {
        PropView::Shorthand(_) => {},
        PropView::KeyValue { key, value } => {
            lemma_bare_free_key(p, key, n);
            lemma_bare_free_expr(p, value, n);
        },
        PropView::Other(o) => {
            lemma_bare_free_other(p, o, n);
        },
    }
}

/// The statement pass leaves alone the properties of an object literal without a statement that
/// calls `require`.
pub proof fn lemma_bare_free_props(p: Pass, x: Seq<PropView>, n: nat)
    requires
        p == Pass::RequireStatement,
        bare_free_props(x),
        tidy_props(x),
    ensures
        rw_props(p, x, n) == keep(x),
    decreases x, 0nat,
{
    lemma_concat_empty(PendingView::empty());
    if x.len() > 0 {
        assert forall|i: int| 0 <= i < x.drop_last().len() implies bare_free_prop(
            #[trigger] x.drop_last()[i],
        ) by {
            assert(x.drop_last()[i] == x[i]);
        }
        assert forall|i: int| 0 <= i < x.drop_last().len() implies tidy_prop(
            #[trigger] x.drop_last()[i],
        ) by {
            assert(x.drop_last()[i] == x[i]);
        }
        assert(bare_free_prop(x[x.len() - 1]));
        assert(tidy_prop(x[x.len() - 1]));
        lemma_bare_free_props(p, x.drop_last(), n);
        lemma_bare_free_prop(p, x.last(), n);
        assert(x.drop_last().push(x.last()) =~= x);
    } else {
        assert(x =~= Seq::empty());
    }
}

/// The statement pass leaves alone a pattern without a statement that
/// calls `require`.
pub proof fn lemma_bare_free_pat(p: Pass, x: PatView, n: nat)
    requires
        p == Pass::RequireStatement,
        bare_free_pat(x),
        tidy_pat(x),
    ensures
        rw_pat(p, x, n) == keep(x),
    decreases x, 0nat,
{
    lemma_concat_empty(PendingView::empty());
    match x {
        PatView::Ident(_) => {},
        PatView::Object(props) => {
            lemma_bare_free_pat_props(p, props, n);
        },
        PatView::Expr(e) => {
            lemma_bare_free_expr(p, *e, n);
        },
        PatView::Other(o) => {
            lemma_bare_free_other(p, o, n);
        },
    }
}

/// The statement pass leaves alone a property of an object pattern without a statement that
/// calls `require`.
pub proof fn lemma_bare_free_pat_prop(p: Pass, x: ObjectPatPropView, n: nat)
    requires
        p == Pass::RequireStatement,
        bare_free_pat_prop(x),
        tidy_pat_prop(x),
    ensures
        rw_pat_prop(p, x, n) == keep(x),
    decreases x, 0nat,
{
    lemma_concat_empty(PendingView::empty());
    match x {
        ObjectPatPropView::Assign { name, default_value } => {
            lemma_bare_free_opt_expr(p, default_value, n);
        },
        ObjectPatPropView::KeyValue { key, value } => {
            lemma_bare_free_key(p, key, n);
            lemma_bare_free_pat(p, value, n);
        },
        ObjectPatPropView::Other(o) => {
            lemma_bare_free_other(p, o, n);
        },
    }
}

/// The statement pass leaves alone the properties of an object pattern without a statement that
/// calls `require`.
pub proof fn lemma_bare_free_pat_props(p: Pass, x: Seq<ObjectPatPropView>, n: nat)
    requires
        p == Pass::RequireStatement,
        bare_free_pat_props(x),
        tidy_pat_props(x),
    ensures
        rw_pat_props(p, x, n) == keep(x),
    decreases x, 0nat,
{
    lemma_concat_empty(PendingView::empty());
    if x.len() > 0 {
        assert forall|i: int| 0 <= i < x.drop_last().len() implies bare_free_pat_prop(
            #[trigger] x.drop_last()[i],
        ) by {
            assert(x.drop_last()[i] == x[i]);
        }
        assert forall|i: int| 0 <= i < x.drop_last().len() implies tidy_pat_prop(
            #[trigger] x.drop_last()[i],
        ) by {
            assert(x.drop_last()[i] == x[i]);
        }
        assert(bare_free_pat_prop(x[x.len() - 1]));
        assert(tidy_pat_prop(x[x.len() - 1]));
        lemma_bare_free_pat_props(p, x.drop_last(), n);
        lemma_bare_free_pat_prop(p, x.last(), n);
        assert(x.drop_last().push(x.last()) =~= x);
    } else {
        assert(x =~= Seq::empty());
    }
}

/// The statement pass leaves alone uninterpreted syntax without a statement that
/// calls `require`.
pub proof fn lemma_bare_free_other(p: Pass, x: OtherView, n: nat)
    requires
        p == Pass::RequireStatement,
        bare_free_other(x),
        tidy_other(x),
    ensures
        rw_other(p, x, n) == keep(x),
    decreases x, 0nat,
{
    lemma_concat_empty(PendingView::empty());
    lemma_bare_free_parts(p, x.parts, n);
}

/// The statement pass leaves alone a sub-tree of uninterpreted syntax without a statement that
/// calls `require`.
pub proof fn lemma_bare_free_part(p: Pass, x: PartView, n: nat)
    requires
        p == Pass::RequireStatement,
        bare_free_part(x),
        tidy_part(x),
    ensures
        rw_part(p, x, n) == keep(x),
    decreases x, 0nat,
{
    lemma_concat_empty(PendingView::empty());
    match x {
        PartView::Expr(e) => {
            lemma_bare_free_expr(p, e, n);
        },
        PartView::Pat(q) => {
            lemma_bare_free_pat(p, q, n);
        },
        PartView::Stmt(s) => {
            lemma_bare_free_stmt(p, s, n);
        },
        PartView::Block(b) => {
            lemma_bare_free_stmts(p, b, n);
        },
    }
}

/// The statement pass leaves alone the sub-trees of uninterpreted syntax without a statement that
/// calls `require`.
pub proof fn lemma_bare_free_parts(p: Pass, x: Seq<PartView>, n: nat)
    requires
        p == Pass::RequireStatement,
        bare_free_parts(x),
        tidy_parts(x),
    ensures
        rw_parts(p, x, n) == keep(x),
    decreases x, 0nat,
{
    lemma_concat_empty(PendingView::empty());
    if x.len() > 0 {
        assert forall|i: int| 0 <= i < x.drop_last().len() implies bare_free_part(
            #[trigger] x.drop_last()[i],
        ) by {
            assert(x.drop_last()[i] == x[i]);
        }
        assert forall|i: int| 0 <= i < x.drop_last().len() implies tidy_part(
            #[trigger] x.drop_last()[i],
        ) by {
            assert(x.drop_last()[i] == x[i]);
        }
        assert(bare_free_part(x[x.len() - 1]));
        assert(tidy_part(x[x.len() - 1]));
        lemma_bare_free_parts(p, x.drop_last(), n);
        lemma_bare_free_part(p, x.last(), n);
        assert(x.drop_last().push(x.last()) =~= x);
    } else {
        assert(x =~= Seq::empty());
    }
}

/// The statement pass leaves alone a declarator without a statement that
/// calls `require`.
pub proof fn lemma_bare_free_declarator(p: Pass, x: VarDeclaratorView, n: nat)
    requires
        p == Pass::RequireStatement,
        bare_free_declarator(x),
        tidy_declarator(x),
    ensures
        rw_declarator(p, x, n) == keep(Some(x)),
    decreases x, 0nat,
{
    lemma_concat_empty(PendingView::empty());
    lemma_bare_free_pat(p, x.name, n);
    lemma_bare_free_opt_expr(p, x.init, n);
    reveal(on_declarator);
}

/// The statement pass leaves alone the declarators of a declaration without a statement that
/// calls `require`.
pub proof fn lemma_bare_free_declarators(p: Pass, x: Seq<VarDeclaratorView>, n: nat)
    requires
        p == Pass::RequireStatement,
        bare_free_declarators(x),
        tidy_declarators(x),
    ensures
        rw_declarators(p, x, n) == keep(x),
    decreases x, 0nat,
{
    lemma_concat_empty(PendingView::empty());
    if x.len() > 0 {
        assert forall|i: int| 0 <= i < x.drop_last().len() implies bare_free_declarator(
            #[trigger] x.drop_last()[i],
        ) by {
            assert(x.drop_last()[i] == x[i]);
        }
        assert forall|i: int| 0 <= i < x.drop_last().len() implies tidy_declarator(
            #[trigger] x.drop_last()[i],
        ) by {
            assert(x.drop_last()[i] == x[i]);
        }
        assert(bare_free_declarator(x[x.len() - 1]));
        assert(tidy_declarator(x[x.len() - 1]));
        lemma_bare_free_declarators(p, x.drop_last(), n);
        lemma_bare_free_declarator(p, x.last(), n);
        assert(x.drop_last().push(x.last()) =~= x);
    } else {
        assert(x =~= Seq::empty());
    }
}

/// The statement pass leaves alone a statement without a statement that
/// calls `require`.
pub proof fn lemma_bare_free_stmt(p: Pass, x: StmtView, n: nat)
    requires
        p == Pass::RequireStatement,
        bare_free_stmt(x),
        tidy_stmt(x),
    ensures
        rw_stmt(p, x, n) == keep(x),
    decreases x, 0nat,
{
    lemma_concat_empty(PendingView::empty());
    match x {
        StmtView::Empty => {},
        StmtView::Expr(e) => {
            lemma_bare_free_expr(p, e, n);
            reveal(on_expr_stmt);
        },
        StmtView::Var(d) => {
            lemma_bare_free_declarators(p, d.decls, n);
        },
        StmtView::Other(o) => {
            lemma_bare_free_other(p, o, n);
        },
    }
}

/// The statement pass leaves alone a statement list without a statement that
/// calls `require`.
pub proof fn lemma_bare_free_stmts(p: Pass, x: Seq<StmtView>, n: nat)
    requires
        p == Pass::RequireStatement,
        bare_free_stmts(x),
        tidy_stmts(x),
    ensures
        rw_stmts(p, x, n) == keep(x),
    decreases x, 0nat,
{
    lemma_concat_empty(PendingView::empty());
    if x.len() > 0 {
        assert forall|i: int| 0 <= i < x.drop_last().len() implies bare_free_stmt(
            #[trigger] x.drop_last()[i],
        ) by {
            assert(x.drop_last()[i] == x[i]);
        }
        assert forall|i: int| 0 <= i < x.drop_last().len() implies tidy_stmt(
            #[trigger] x.drop_last()[i],
        ) && x.drop_last()[i] !is Empty by {
            assert(x.drop_last()[i] == x[i]);
        }
        assert(bare_free_stmt(x[x.len() - 1]));
        assert(tidy_stmt(x[x.len() - 1]) && x[x.len() - 1] !is Empty);
        lemma_bare_free_stmts(p, x.drop_last(), n);
        lemma_bare_free_stmt(p, x.last(), n);
        assert(x.drop_last().push(x.last()) =~= x);
    } else {
        assert(x =~= Seq::empty());
    }
}

/// The statement pass leaves alone an item of a module without a statement that
/// calls `require`.
pub proof fn lemma_bare_free_item(p: Pass, x: ModuleItemView, n: nat)
    requires
        p == Pass::RequireStatement,
        bare_free_item(x),
        tidy_item(x),
    ensures
        rw_item(p, x, n) == keep(x),
{
    match x {
        ModuleItemView::Stmt(s) => {
            lemma_bare_free_stmt(p, s, n);
        },
        ModuleItemView::Import(_) => {},
        ModuleItemView::ExportNamed(_) => {},
        ModuleItemView::ExportDefault(e) => {
            lemma_bare_free_expr(p, e, n);
        },
        ModuleItemView::ExportConst { name, init } => {
            lemma_bare_free_expr(p, init, n);
        },
        ModuleItemView::Other(o) => {
            lemma_bare_free_other(p, o, n);
        },
    }
}

/// The statement pass leaves alone the items of a module without a statement that
/// calls `require`.
pub proof fn lemma_bare_free_items(p: Pass, x: Seq<ModuleItemView>, n: nat)
    requires
        p == Pass::RequireStatement,
        bare_free_items(x),
        tidy_items(x),
    ensures
        rw_items(p, x, n) == keep(x),
    decreases x.len(),
{
    lemma_concat_empty(PendingView::empty());
    if x.len() > 0 {
        assert forall|i: int| 0 <= i < x.drop_last().len() implies bare_free_item(
            #[trigger] x.drop_last()[i],
        ) by {
            assert(x.drop_last()[i] == x[i]);
        }
        assert forall|i: int| 0 <= i < x.drop_last().len() implies tidy_item(
            #[trigger] x.drop_last()[i],
        ) by {
            assert(x.drop_last()[i] == x[i]);
        }
        assert(bare_free_item(x[x.len() - 1]));
        assert(tidy_item(x[x.len() - 1]));
        lemma_bare_free_items(p, x.drop_last(), n);
        lemma_bare_free_item(p, x.last(), n);
        assert(x.drop_last().push(x.last()) =~= x);
    } else {
        assert(x =~= Seq::empty());
    }
}

/// No statement of the module, at any depth, is a call of `require`.
pub open spec fn bare_free_module(m: ModuleView) -> bool {
    bare_free_items(m.body)
}

/// Where no statement of a module without placeholders is a call of
/// `require`, the statement pass hands the module on as it is.
pub proof fn law_statement_pass_without_bare_require(m: ModuleView)
    requires
        tidy_module(m),
        bare_free_module(m),
    ensures
        apply(Pass::RequireStatement, m) == untouched(m),
{
    reveal(apply);
    lemma_bare_free_items(Pass::RequireStatement, m.body, 0);
    assert(flush(m.body, PendingView::empty()) =~= m.body);
}

} // verus!
