//! A pass that finds no match changes nothing: where it records nothing for
//! a tree without placeholders, the tree comes back as it went in.
use crate::ast::{
    AssignExprView, CallExprView, ExprView, KeyView, MemberExprView, ModuleItemView, ModuleView,
    ObjectPatPropView, OtherView, PartView, PatView, PropView, StmtView, VarDeclaratorView,
};
use crate::tidy::{
    tidy_assign, tidy_call, tidy_declarator, tidy_declarators, tidy_expr, tidy_exprs, tidy_item,
    tidy_items, tidy_key, tidy_member, tidy_module, tidy_opt_expr, tidy_other, tidy_part,
    tidy_parts, tidy_pat, tidy_pat_prop, tidy_pat_props, tidy_prop, tidy_props, tidy_stmt,
    tidy_stmts,
};
use crate::transform_cjs::untouched;
use crate::traverse::{
    apply, flush, on_declarator, on_expr, on_expr_stmt, rw_assign, rw_call, rw_children,
    rw_declarator, rw_declarators, rw_expr, rw_exprs, rw_item, rw_items, rw_key, rw_member,
    rw_opt_expr, rw_other, rw_part, rw_parts, rw_pat, rw_pat_prop, rw_pat_props, rw_prop, rw_props,
    rw_stmt, rw_stmts,
};
use crate::visitors::{keep, Pass, PendingView, Rewrite};
use vstd::prelude::*;

verus! {

/// The rewrite went through and recorded nothing.
pub open spec fn silent<T>(r: Rewrite<T>) -> bool {
    !r.fatal && r.out == PendingView::empty()
}

/// Where two rewrites in a row record nothing, neither of them does.
#[verifier::spinoff_prover]
pub proof fn lemma_silent_parts(a: PendingView, b: PendingView)
    requires
        a.concat(b) == PendingView::empty(),
    ensures
        a == PendingView::empty(),
        b == PendingView::empty(),
{
    let c = a.concat(b);
    assert(c.imports.len() == 0 && c.decls.len() == 0 && c.exports.len() == 0 && c.warnings.len()
        == 0);
    assert(a =~~= PendingView::empty());
    assert(b =~~= PendingView::empty());
}

/// A pass that records nothing for the sub-trees of a call leaves it as it is.
#[verifier::spinoff_prover]
pub proof fn lemma_idle_call(p: Pass, x: CallExprView, n: nat)
    requires
        tidy_call(x),
        silent(rw_call(p, x, n)),
    ensures
        rw_call(p, x, n) == keep(x),
    decreases x, 0nat,
{
    let callee = rw_expr(p, *x.callee, n);
    let args = rw_exprs(p, x.args, n + callee.out.issued());
    lemma_silent_parts(callee.out, args.out);
    lemma_idle_expr(p, *x.callee, n);
    lemma_idle_exprs(p, x.args, n);
}

/// A pass that records nothing for the sub-trees of a member access leaves it as it is.
#[verifier::spinoff_prover]
pub proof fn lemma_idle_member(p: Pass, x: MemberExprView, n: nat)
    requires
        tidy_member(x),
        silent(rw_member(p, x, n)),
    ensures
        rw_member(p, x, n) == keep(x),
    decreases x, 0nat,
{
    let obj = rw_expr(p, *x.obj, n);
    let prop = rw_key(p, x.prop, n + obj.out.issued());
    lemma_silent_parts(obj.out, prop.out);
    lemma_idle_expr(p, *x.obj, n);
    lemma_idle_key(p, x.prop, n);
}

/// A pass that records nothing for the sub-trees of an assignment leaves it as it is.
#[verifier::spinoff_prover]
pub proof fn lemma_idle_assign(p: Pass, x: AssignExprView, n: nat)
    requires
        tidy_assign(x),
        silent(rw_assign(p, x, n)),
    ensures
        rw_assign(p, x, n) == keep(x),
    decreases x, 0nat,
{
    let left = rw_pat(p, x.left, n);
    let right = rw_expr(p, *x.right, n + left.out.issued());
    lemma_silent_parts(left.out, right.out);
    lemma_idle_pat(p, x.left, n);
    lemma_idle_expr(p, *x.right, n);
}

/// A pass that records nothing for the sub-trees of an expression leaves it as it is.
#[verifier::spinoff_prover]
pub proof fn lemma_idle_children(p: Pass, x: ExprView, n: nat)
    requires
        tidy_expr(x),
        silent(rw_children(p, x, n)),
    ensures
        rw_children(p, x, n) == keep(x),
    decreases x, 0nat,
{
    match x {
        ExprView::Ident(_) => {},
        ExprView::Str(_) => {},
        ExprView::Call(c) => {
            lemma_idle_call(p, c, n);
        },
        ExprView::Member(m) => {
            lemma_idle_member(p, m, n);
        },
        ExprView::Assign(a) => {
            lemma_idle_assign(p, a, n);
        },
        ExprView::Object(props) => {
            lemma_idle_props(p, props, n);
        },
        ExprView::Other(o) => {
            lemma_idle_other(p, o, n);
        },
    }
}

/// A pass that records nothing for an expression leaves it as it is.
#[verifier::spinoff_prover]
pub proof fn lemma_idle_expr(p: Pass, x: ExprView, n: nat)
    requires
        tidy_expr(x),
        silent(rw_expr(p, x, n)),
    ensures
        rw_expr(p, x, n) == keep(x),
    decreases x, 1nat,
{
    let inner = rw_children(p, x, n);
    let rule = on_expr(p, inner.node, n + inner.out.issued());
    lemma_silent_parts(inner.out, rule.out);
    lemma_idle_children(p, x, n);
    reveal(on_expr);
}

/// A pass that records nothing for the arguments of a call leaves it as it is.
#[verifier::spinoff_prover]
pub proof fn lemma_idle_exprs(p: Pass, x: Seq<ExprView>, n: nat)
    requires
        tidy_exprs(x),
        silent(rw_exprs(p, x, n)),
    ensures
        rw_exprs(p, x, n) == keep(x),
    decreases x, 0nat,
{
    if x.len() > 0 {
        let front = rw_exprs(p, x.drop_last(), n);
        let last = rw_expr(p, x.last(), n + front.out.issued());
        lemma_silent_parts(front.out, last.out);
        assert forall|i: int| 0 <= i < x.drop_last().len() implies tidy_expr(
            #[trigger] x.drop_last()[i],
        ) by {
            assert(x.drop_last()[i] == x[i]);
        }
        assert(tidy_expr(x[x.len() - 1]));
        lemma_idle_exprs(p, x.drop_last(), n);
        lemma_idle_expr(p, x.last(), n);
        assert(x.drop_last().push(x.last()) =~= x);
    } else {
        assert(x =~= Seq::empty());
    }
}

/// A pass that records nothing for an expression that may be absent leaves it as it is.
#[verifier::spinoff_prover]
pub proof fn lemma_idle_opt_expr(p: Pass, x: Option<ExprView>, n: nat)
    requires
        tidy_opt_expr(x),
        silent(rw_opt_expr(p, x, n)),
    ensures
        rw_opt_expr(p, x, n) == keep(x),
    decreases x, 0nat,
{
    match x {
        Some(e) => {
            lemma_idle_expr(p, e, n);
        },
        None => {},
    }
}

/// A pass that records nothing for a key leaves it as it is.
#[verifier::spinoff_prover]
pub proof fn lemma_idle_key(p: Pass, x: KeyView, n: nat)
    requires
        tidy_key(x),
        silent(rw_key(p, x, n)),
    ensures
        rw_key(p, x, n) == keep(x),
    decreases x, 0nat,
{
    match x {
        KeyView::Ident(_) => {},
        KeyView::Str(_) => {},
        KeyView::Computed(e) => {
            lemma_idle_expr(p, *e, n);
        },
        KeyView::Other(o) => {
            lemma_idle_other(p, o, n);
        },
    }
}

/// A pass that records nothing for a property of an object literal leaves it as it is.
#[verifier::spinoff_prover]
pub proof fn lemma_idle_prop(p: Pass, x: PropView, n: nat)
    requires
        tidy_prop(x),
        silent(rw_prop(p, x, n)),
    ensures
        rw_prop(p, x, n) == keep(x),
    decreases x, 0nat,
{
    match x {
        PropView::Shorthand(_) => {},
        PropView::KeyValue { key, value } => {
            let k = rw_key(p, key, n);
            let v = rw_expr(p, value, n + k.out.issued());
            lemma_silent_parts(k.out, v.out);
            lemma_idle_key(p, key, n);
            lemma_idle_expr(p, value, n);
        },
        PropView::Other(o) => {
            lemma_idle_other(p, o, n);
        },
    }
}

/// A pass that records nothing for the properties of an object literal leaves it as it is.
#[verifier::spinoff_prover]
pub proof fn lemma_idle_props(p: Pass, x: Seq<PropView>, n: nat)
    requires
        tidy_props(x),
        silent(rw_props(p, x, n)),
    ensures
        rw_props(p, x, n) == keep(x),
    decreases x, 0nat,
{
    if x.len() > 0 {
        let front = rw_props(p, x.drop_last(), n);
        let last = rw_prop(p, x.last(), n + front.out.issued());
        lemma_silent_parts(front.out, last.out);
        assert forall|i: int| 0 <= i < x.drop_last().len() implies tidy_prop(
            #[trigger] x.drop_last()[i],
        ) by {
            assert(x.drop_last()[i] == x[i]);
        }
        assert(tidy_prop(x[x.len() - 1]));
        lemma_idle_props(p, x.drop_last(), n);
        lemma_idle_prop(p, x.last(), n);
        assert(x.drop_last().push(x.last()) =~= x);
    } else {
        assert(x =~= Seq::empty());
    }
}

/// A pass that records nothing for a pattern leaves it as it is.
#[verifier::spinoff_prover]
pub proof fn lemma_idle_pat(p: Pass, x: PatView, n: nat)
    requires
        tidy_pat(x),
        silent(rw_pat(p, x, n)),
    ensures
        rw_pat(p, x, n) == keep(x),
    decreases x, 0nat,
{
    match x {
        PatView::Ident(_) => {},
        PatView::Object(props) => {
            lemma_idle_pat_props(p, props, n);
        },
        PatView::Expr(e) => {
            lemma_idle_expr(p, *e, n);
        },
        PatView::Other(o) => {
            lemma_idle_other(p, o, n);
        },
    }
}

/// A pass that records nothing for a property of an object pattern leaves it as it is.
#[verifier::spinoff_prover]
pub proof fn lemma_idle_pat_prop(p: Pass, x: ObjectPatPropView, n: nat)
    requires
        tidy_pat_prop(x),
        silent(rw_pat_prop(p, x, n)),
    ensures
        rw_pat_prop(p, x, n) == keep(x),
    decreases x, 0nat,
{
    match x {
        ObjectPatPropView::Assign { name, default_value } => {
            lemma_idle_opt_expr(p, default_value, n);
        },
        ObjectPatPropView::KeyValue { key, value } => {
            let k = rw_key(p, key, n);
            let v = rw_pat(p, value, n + k.out.issued());
            lemma_silent_parts(k.out, v.out);
            lemma_idle_key(p, key, n);
            lemma_idle_pat(p, value, n);
        },
        ObjectPatPropView::Other(o) => {
            lemma_idle_other(p, o, n);
        },
    }
}

/// A pass that records nothing for the properties of an object pattern leaves it as it is.
#[verifier::spinoff_prover]
pub proof fn lemma_idle_pat_props(p: Pass, x: Seq<ObjectPatPropView>, n: nat)
    requires
        tidy_pat_props(x),
        silent(rw_pat_props(p, x, n)),
    ensures
        rw_pat_props(p, x, n) == keep(x),
    decreases x, 0nat,
{
    if x.len() > 0 {
        let front = rw_pat_props(p, x.drop_last(), n);
        let last = rw_pat_prop(p, x.last(), n + front.out.issued());
        lemma_silent_parts(front.out, last.out);
        assert forall|i: int| 0 <= i < x.drop_last().len() implies tidy_pat_prop(
            #[trigger] x.drop_last()[i],
        ) by {
            assert(x.drop_last()[i] == x[i]);
        }
        assert(tidy_pat_prop(x[x.len() - 1]));
        lemma_idle_pat_props(p, x.drop_last(), n);
        lemma_idle_pat_prop(p, x.last(), n);
        assert(x.drop_last().push(x.last()) =~= x);
    } else {
        assert(x =~= Seq::empty());
    }
}

/// A pass that records nothing for uninterpreted syntax leaves it as it is.
#[verifier::spinoff_prover]
pub proof fn lemma_idle_other(p: Pass, x: OtherView, n: nat)
    requires
        tidy_other(x),
        silent(rw_other(p, x, n)),
    ensures
        rw_other(p, x, n) == keep(x),
    decreases x, 0nat,
{
    lemma_idle_parts(p, x.parts, n);
}

/// A pass that records nothing for a sub-tree of uninterpreted syntax leaves it as it is.
#[verifier::spinoff_prover]
pub proof fn lemma_idle_part(p: Pass, x: PartView, n: nat)
    requires
        tidy_part(x),
        silent(rw_part(p, x, n)),
    ensures
        rw_part(p, x, n) == keep(x),
    decreases x, 0nat,
{
    match x {
        PartView::Expr(e) => {
            lemma_idle_expr(p, e, n);
        },
        PartView::Pat(q) => {
            lemma_idle_pat(p, q, n);
        },
        PartView::Stmt(s) => {
            lemma_idle_stmt(p, s, n);
        },
        PartView::Block(b) => {
            lemma_idle_stmts(p, b, n);
        },
    }
}

/// A pass that records nothing for the sub-trees of uninterpreted syntax leaves it as it is.
#[verifier::spinoff_prover]
pub proof fn lemma_idle_parts(p: Pass, x: Seq<PartView>, n: nat)
    requires
        tidy_parts(x),
        silent(rw_parts(p, x, n)),
    ensures
        rw_parts(p, x, n) == keep(x),
    decreases x, 0nat,
{
    if x.len() > 0 {
        let front = rw_parts(p, x.drop_last(), n);
        let last = rw_part(p, x.last(), n + front.out.issued());
        lemma_silent_parts(front.out, last.out);
        assert forall|i: int| 0 <= i < x.drop_last().len() implies tidy_part(
            #[trigger] x.drop_last()[i],
        ) by {
            assert(x.drop_last()[i] == x[i]);
        }
        assert(tidy_part(x[x.len() - 1]));
        lemma_idle_parts(p, x.drop_last(), n);
        lemma_idle_part(p, x.last(), n);
        assert(x.drop_last().push(x.last()) =~= x);
    } else {
        assert(x =~= Seq::empty());
    }
}

/// A pass that records nothing for a declarator leaves it as it is.
#[verifier::spinoff_prover]
pub proof fn lemma_idle_declarator(p: Pass, x: VarDeclaratorView, n: nat)
    requires
        tidy_declarator(x),
        silent(rw_declarator(p, x, n)),
    ensures
        rw_declarator(p, x, n) == keep(Some(x)),
    decreases x, 0nat,
{
    let name = rw_pat(p, x.name, n);
    let init = rw_opt_expr(p, x.init, n + name.out.issued());
    let rule = on_declarator(p, VarDeclaratorView { name: name.node, init: init.node });
    lemma_silent_parts(name.out.concat(init.out), rule.out);
    lemma_silent_parts(name.out, init.out);
    lemma_idle_pat(p, x.name, n);
    lemma_idle_opt_expr(p, x.init, n);
    reveal(on_declarator);
}

/// A pass that records nothing for the declarators of a declaration leaves it as it is.
#[verifier::spinoff_prover]
pub proof fn lemma_idle_declarators(p: Pass, x: Seq<VarDeclaratorView>, n: nat)
    requires
        tidy_declarators(x),
        silent(rw_declarators(p, x, n)),
    ensures
        rw_declarators(p, x, n) == keep(x),
    decreases x, 0nat,
{
    if x.len() > 0 {
        let front = rw_declarators(p, x.drop_last(), n);
        let last = rw_declarator(p, x.last(), n + front.out.issued());
        lemma_silent_parts(front.out, last.out);
        assert forall|i: int| 0 <= i < x.drop_last().len() implies tidy_declarator(
            #[trigger] x.drop_last()[i],
        ) by {
            assert(x.drop_last()[i] == x[i]);
        }
        assert(tidy_declarator(x[x.len() - 1]));
        lemma_idle_declarators(p, x.drop_last(), n);
        lemma_idle_declarator(p, x.last(), n);
        assert(x.drop_last().push(x.last()) =~= x);
    } else {
        assert(x =~= Seq::empty());
    }
}

/// A pass that records nothing for a statement leaves it as it is.
#[verifier::spinoff_prover]
pub proof fn lemma_idle_stmt(p: Pass, x: StmtView, n: nat)
    requires
        tidy_stmt(x),
        silent(rw_stmt(p, x, n)),
    ensures
        rw_stmt(p, x, n) == keep(x),
    decreases x, 0nat,
{
    match x {
        StmtView::Empty => {},
        StmtView::Expr(e) => {
            let inner = rw_expr(p, e, n);
            let rule = on_expr_stmt(p, inner.node, n + inner.out.issued());
            lemma_silent_parts(inner.out, rule.out);
            lemma_idle_expr(p, e, n);
            reveal(on_expr_stmt);
        },
        StmtView::Var(d) => {
            lemma_idle_declarators(p, d.decls, n);
        },
        StmtView::Other(o) => {
            lemma_idle_other(p, o, n);
        },
    }
}

/// A pass that records nothing for a statement list leaves it as it is.
#[verifier::spinoff_prover]
pub proof fn lemma_idle_stmts(p: Pass, x: Seq<StmtView>, n: nat)
    requires
        tidy_stmts(x),
        silent(rw_stmts(p, x, n)),
    ensures
        rw_stmts(p, x, n) == keep(x),
    decreases x, 0nat,
{
    if x.len() > 0 {
        let front = rw_stmts(p, x.drop_last(), n);
        let last = rw_stmt(p, x.last(), n + front.out.issued());
        lemma_silent_parts(front.out, last.out);
        assert forall|i: int| 0 <= i < x.drop_last().len() implies tidy_stmt(
            #[trigger] x.drop_last()[i],
        ) && x.drop_last()[i] !is Empty by {
            assert(x.drop_last()[i] == x[i]);
        }
        assert(tidy_stmt(x[x.len() - 1]) && x[x.len() - 1] !is Empty);
        lemma_idle_stmts(p, x.drop_last(), n);
        lemma_idle_stmt(p, x.last(), n);
        assert(x.drop_last().push(x.last()) =~= x);
    } else {
        assert(x =~= Seq::empty());
    }
}

/// A pass that records nothing for an item of a module leaves it as it is.
#[verifier::spinoff_prover]
pub proof fn lemma_idle_item(p: Pass, x: ModuleItemView, n: nat)
    requires
        tidy_item(x),
        silent(rw_item(p, x, n)),
    ensures
        rw_item(p, x, n) == keep(x),
{
    match x {
        ModuleItemView::Stmt(s) => {
            lemma_idle_stmt(p, s, n);
        },
        ModuleItemView::Import(_) => {},
        ModuleItemView::ExportNamed(_) => {},
        ModuleItemView::ExportDefault(e) => {
            lemma_idle_expr(p, e, n);
        },
        ModuleItemView::ExportConst { name, init } => {
            lemma_idle_expr(p, init, n);
        },
        ModuleItemView::Other(o) => {
            lemma_idle_other(p, o, n);
        },
    }
}

/// A pass that records nothing for the items of a module leaves it as it is.
#[verifier::spinoff_prover]
pub proof fn lemma_idle_items(p: Pass, x: Seq<ModuleItemView>, n: nat)
    requires
        tidy_items(x),
        silent(rw_items(p, x, n)),
    ensures
        rw_items(p, x, n) == keep(x),
    decreases x.len(),
{
    if x.len() > 0 {
        let front = rw_items(p, x.drop_last(), n);
        let last = rw_item(p, x.last(), n + front.out.issued());
        lemma_silent_parts(front.out, last.out);
        assert forall|i: int| 0 <= i < x.drop_last().len() implies tidy_item(
            #[trigger] x.drop_last()[i],
        ) by {
            assert(x.drop_last()[i] == x[i]);
        }
        assert(tidy_item(x[x.len() - 1]));
        lemma_idle_items(p, x.drop_last(), n);
        lemma_idle_item(p, x.last(), n);
        assert(x.drop_last().push(x.last()) =~= x);
    } else {
        assert(x =~= Seq::empty());
    }
}

/// A pass is a no-op on what it does not match: where it goes through a
/// module without placeholders and records nothing, neither a declaration
/// nor a warning, the module comes back as it went in.
#[verifier::spinoff_prover]
pub proof fn law_pass_without_match_changes_nothing(p: Pass, m: ModuleView)
    requires
        tidy_module(m),
        silent(rw_items(p, m.body, 0)),
    ensures
        apply(p, m) == untouched(m),
{
    reveal(apply);
    lemma_idle_items(p, m.body, 0);
    assert(flush(m.body, PendingView::empty()) =~= m.body);
}

} // verus!