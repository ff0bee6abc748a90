//! What every pass hands on: a tree without placeholders. No statement list
//! holds an empty statement, and no variable declaration is without
//! declarators.
use crate::ast::{
    AssignExprView, CallExprView, ExprView, KeyView, MemberExprView, ModuleItemView, ModuleView,
    ObjectPatPropView, OtherView, PartView, PatView, PropView, StmtView, VarDeclaratorView,
};
use crate::transform_cjs::{cascade, followed_by, untouched};
use crate::traverse::{
    apply, default_items, flush, hoisted_items, import_items, on_declarator, on_expr, on_expr_stmt,
    rw_assign, rw_call, rw_children, rw_declarator, rw_declarators, rw_expr, rw_exprs, rw_item,
    rw_items, rw_key, rw_member, rw_opt_expr, rw_other, rw_part, rw_parts, rw_pat, rw_pat_prop,
    rw_pat_props, rw_prop, rw_props, rw_stmt, rw_stmts,
};
use crate::utils::RewriteError;
use crate::traverse::added_default;
use crate::visitors::{
    expand_object, DefaultExportView, DefaultFindingView, Pass, PendingView, Rewrite,
};
use vstd::prelude::*;

verus! {

/// An expression without placeholders inside.
pub open spec fn tidy_expr(e: ExprView) -> bool
    decreases e,
{
    match e {
        ExprView::Ident(_) => true,
        ExprView::Str(_) => true,
        ExprView::Call(c) => tidy_call(c),
        ExprView::Member(m) => tidy_member(m),
        ExprView::Assign(a) => tidy_assign(a),
        ExprView::Object(props) => tidy_props(props),
        ExprView::Other(o) => tidy_other(o),
    }
}

/// No placeholder in the sub-trees of a call.
pub open spec fn tidy_call(c: CallExprView) -> bool
    decreases c,
{
    tidy_expr(*c.callee) && tidy_exprs(c.args)
}

/// No placeholder in the sub-trees of a member access.
pub open spec fn tidy_member(m: MemberExprView) -> bool
    decreases m,
{
    tidy_expr(*m.obj) && tidy_key(m.prop)
}

/// No placeholder in the sub-trees of an assignment.
pub open spec fn tidy_assign(a: AssignExprView) -> bool
    decreases a,
{
    tidy_pat(a.left) && tidy_expr(*a.right)
}

/// No placeholder in the arguments of a call.
pub open spec fn tidy_exprs(s: Seq<ExprView>) -> bool
    decreases s,
{
    forall|i: int| 0 <= i < s.len() ==> tidy_expr(#[trigger] s[i])
}

/// No placeholder in an expression that may be absent.
pub open spec fn tidy_opt_expr(e: Option<ExprView>) -> bool
    decreases e,
{
    match e {
        Some(x) => tidy_expr(x),
        None => true,
    }
}

/// No placeholder in a key.
pub open spec fn tidy_key(k: KeyView) -> bool
    decreases k,
{
    match k {
        KeyView::Ident(_) => true,
        KeyView::Str(_) => true,
        KeyView::Computed(e) => tidy_expr(*e),
        KeyView::Other(o) => tidy_other(o),
    }
}

/// No placeholder in a property of an object literal.
pub open spec fn tidy_prop(x: PropView) -> bool
    decreases x,
{
    match x {
        PropView::Shorthand(_) => true,
        PropView::KeyValue { key, value } => tidy_key(key) && tidy_expr(value),
        PropView::Other(o) => tidy_other(o),
    }
}

/// No placeholder in the properties of an object literal.
pub open spec fn tidy_props(s: Seq<PropView>) -> bool
    decreases s,
{
    forall|i: int| 0 <= i < s.len() ==> tidy_prop(#[trigger] s[i])
}

/// No placeholder in a pattern.
pub open spec fn tidy_pat(x: PatView) -> bool
    decreases x,
{
    match x {
        PatView::Ident(_) => true,
        PatView::Object(props) => tidy_pat_props(props),
        PatView::Expr(e) => tidy_expr(*e),
        PatView::Other(o) => tidy_other(o),
    }
}

/// No placeholder in a property of an object pattern.
pub open spec fn tidy_pat_prop(x: ObjectPatPropView) -> bool
    decreases x,
{
    match x {
        ObjectPatPropView::Assign { name, default_value } => tidy_opt_expr(default_value),
        ObjectPatPropView::KeyValue { key, value } => tidy_key(key) && tidy_pat(value),
        ObjectPatPropView::Other(o) => tidy_other(o),
    }
}

/// No placeholder in the properties of an object pattern.
pub open spec fn tidy_pat_props(s: Seq<ObjectPatPropView>) -> bool
    decreases s,
{
    forall|i: int| 0 <= i < s.len() ==> tidy_pat_prop(#[trigger] s[i])
}

/// No placeholder in uninterpreted syntax.
pub open spec fn tidy_other(o: OtherView) -> bool
    decreases o,
{
    tidy_parts(o.parts)
}

/// No placeholder in a sub-tree of uninterpreted syntax.
pub open spec fn tidy_part(x: PartView) -> bool
    decreases x,
{
    match x {
        PartView::Expr(e) => tidy_expr(e),
        PartView::Pat(q) => tidy_pat(q),
        PartView::Stmt(s) => tidy_stmt(s),
        PartView::Block(b) => tidy_stmts(b),
    }
}

/// No placeholder in the sub-trees of uninterpreted syntax.
pub open spec fn tidy_parts(s: Seq<PartView>) -> bool
    decreases s,
{
    forall|i: int| 0 <= i < s.len() ==> tidy_part(#[trigger] s[i])
}

/// No placeholder in a declarator.
pub open spec fn tidy_declarator(d: VarDeclaratorView) -> bool
    decreases d,
{
    tidy_pat(d.name) && tidy_opt_expr(d.init)
}

/// No placeholder in the declarators of a declaration.
pub open spec fn tidy_declarators(s: Seq<VarDeclaratorView>) -> bool
    decreases s,
{
    forall|i: int| 0 <= i < s.len() ==> tidy_declarator(#[trigger] s[i])
}

/// A statement without placeholders inside. The empty statement is tidy
/// where it stands alone, as the body of an `if` may; a statement list must
/// not hold it.
pub open spec fn tidy_stmt(s: StmtView) -> bool
    decreases s,
{
    match s {
        StmtView::Empty => true,
        StmtView::Expr(e) => tidy_expr(e),
        StmtView::Var(d) => d.decls.len() > 0 && tidy_declarators(d.decls),
        StmtView::Other(o) => tidy_other(o),
    }
}

/// A statement list of tidy statements, none of them empty.
pub open spec fn tidy_stmts(s: Seq<StmtView>) -> bool
    decreases s,
{
    forall|i: int| 0 <= i < s.len() ==> tidy_stmt(#[trigger] s[i]) && s[i] !is Empty
}

/// No placeholder in an item of a module.
pub open spec fn tidy_item(item: ModuleItemView) -> bool {
    match item {
        ModuleItemView::Stmt(s) => tidy_stmt(s) && s !is Empty,
        ModuleItemView::Import(_) => true,
        ModuleItemView::ExportNamed(_) => true,
        ModuleItemView::ExportDefault(e) => tidy_expr(e),
        ModuleItemView::ExportConst { name, init } => tidy_expr(init),
        ModuleItemView::Other(o) => tidy_other(o),
    }
}

/// No placeholder in the items of a module.
pub open spec fn tidy_items(s: Seq<ModuleItemView>) -> bool {
    forall|i: int| 0 <= i < s.len() ==> tidy_item(#[trigger] s[i])
}

/// A module without placeholders: no statement list in it, at any depth,
/// holds an empty statement, and no variable declaration in it is without
/// declarators.
pub open spec fn tidy_module(m: ModuleView) -> bool {
    tidy_items(m.body)
}

/// No placeholder in a pending default export.
pub open spec fn tidy_default(d: DefaultFindingView) -> bool {
    match d {
        DefaultFindingView::Found(DefaultExportView::Value(e)) => tidy_expr(e),
        _ => true,
    }
}

/// What a pass has recorded is without placeholders.
pub open spec fn tidy_pending(out: PendingView) -> bool {
    tidy_declarators(out.decls) && tidy_items(out.exports) && tidy_default(out.default_export)
}

/// A rewrite that has not been abandoned left no placeholder, neither in the
/// node nor in what it recorded.
pub open spec fn left_tidy<T>(r: Rewrite<T>, node_is_tidy: bool) -> bool {
    !r.fatal ==> node_is_tidy && tidy_pending(r.out)
}

/// Where both halves of what is pending are tidy, the whole is.
pub proof fn lemma_tidy_concat(a: PendingView, b: PendingView)
    ensures
        tidy_pending(a) && tidy_pending(b) ==> tidy_pending(a.concat(b)),
{
    if tidy_pending(a) && tidy_pending(b) {
        let c = a.concat(b);
        assert forall|i: int| 0 <= i < c.decls.len() implies tidy_declarator(
            #[trigger] c.decls[i],
        ) by {
            if i < a.decls.len() {
                assert(c.decls[i] == a.decls[i]);
            } else {
                assert(c.decls[i] == b.decls[i - a.decls.len()]);
            }
        }
        assert forall|i: int| 0 <= i < c.exports.len() implies tidy_item(
            #[trigger] c.exports[i],
        ) by {
            if i < a.exports.len() {
                assert(c.exports[i] == a.exports[i]);
            } else {
                assert(c.exports[i] == b.exports[i - a.exports.len()]);
            }
        }
    }
}

/// The constants that an expansion declares hold the values of the
/// properties, so they are tidy where the properties are.
pub proof fn lemma_expansion_tidy(props: Seq<PropView>, n: nat)
    requires
        tidy_props(props),
    ensures
        tidy_declarators(expand_object(props, n).decls),
    decreases props.len(),
{
    if props.len() > 0 {
        let front = props.drop_last();
        assert forall|i: int| 0 <= i < front.len() implies tidy_prop(#[trigger] front[i]) by {
            assert(front[i] == props[i]);
        }
        lemma_expansion_tidy(front, n);
        assert(tidy_prop(props[props.len() - 1]));
        let prev = expand_object(front, n);
        let now = expand_object(props, n);
        assert forall|j: int| 0 <= j < now.decls.len() implies tidy_declarator(
            #[trigger] now.decls[j],
        ) by {
            if j < prev.decls.len() {
                assert(now.decls[j] == prev.decls[j]);
            }
        }
    }
}

/// The rule for an expression leaves no placeholder.
proof fn lemma_tidy_on_expr(p: Pass, e: ExprView, n: nat)
    requires
        tidy_expr(e),
    ensures
        left_tidy(on_expr(p, e, n), tidy_expr(on_expr(p, e, n).node)),
{
    reveal(on_expr);
}

/// The rule for a declarator leaves no placeholder.
proof fn lemma_tidy_on_declarator(p: Pass, d: VarDeclaratorView)
    requires
        tidy_declarator(d),
    ensures
        left_tidy(on_declarator(p, d), tidy_remaining(on_declarator(p, d).node)),
{
    reveal(on_declarator);
}

/// The rule for an expression statement leaves no placeholder.
proof fn lemma_tidy_on_expr_stmt(p: Pass, e: ExprView, n: nat)
    requires
        tidy_expr(e),
    ensures
        left_tidy(on_expr_stmt(p, e, n), tidy_stmt(on_expr_stmt(p, e, n).node)),
{
    reveal(on_expr_stmt);
    match e {
        ExprView::Assign(a) => {
            match *a.right {
                ExprView::Object(props) => {
                    assert(tidy_assign(a));
                    assert(tidy_expr(*a.right));
                    lemma_expansion_tidy(props, n);
                },
                _ => {},
            }
        },
        _ => {},
    }
}

/// A declarator that may have left its declaration is tidy.
pub open spec fn tidy_remaining(d: Option<VarDeclaratorView>) -> bool {
    match d {
        Some(x) => tidy_declarator(x),
        None => true,
    }
}

/// Pass `p` on the sub-trees of a call leaves no placeholder.
pub proof fn lemma_tidy_call(p: Pass, x: CallExprView, n: nat)
    ensures
        left_tidy(rw_call(p, x, n), tidy_call(rw_call(p, x, n).node)),
    decreases x, 0nat,
{
    let callee = rw_expr(p, *x.callee, n);
    let args = rw_exprs(p, x.args, n + callee.out.issued());
    lemma_tidy_expr(p, *x.callee, n);
    lemma_tidy_exprs(p, x.args, n + callee.out.issued());
    lemma_tidy_concat(callee.out, args.out);
}

/// Pass `p` on the sub-trees of a member access leaves no placeholder.
pub proof fn lemma_tidy_member(p: Pass, x: MemberExprView, n: nat)
    ensures
        left_tidy(rw_member(p, x, n), tidy_member(rw_member(p, x, n).node)),
    decreases x, 0nat,
{
    let obj = rw_expr(p, *x.obj, n);
    let prop = rw_key(p, x.prop, n + obj.out.issued());
    lemma_tidy_expr(p, *x.obj, n);
    lemma_tidy_key(p, x.prop, n + obj.out.issued());
    lemma_tidy_concat(obj.out, prop.out);
}

/// Pass `p` on the sub-trees of an assignment leaves no placeholder.
pub proof fn lemma_tidy_assign(p: Pass, x: AssignExprView, n: nat)
    ensures
        left_tidy(rw_assign(p, x, n), tidy_assign(rw_assign(p, x, n).node)),
    decreases x, 0nat,
{
    let left = rw_pat(p, x.left, n);
    let right = rw_expr(p, *x.right, n + left.out.issued());
    lemma_tidy_pat(p, x.left, n);
    lemma_tidy_expr(p, *x.right, n + left.out.issued());
    lemma_tidy_concat(left.out, right.out);
}

/// Pass `p` on the sub-trees of an expression leaves no placeholder.
pub proof fn lemma_tidy_children(p: Pass, x: ExprView, n: nat)
    ensures
        left_tidy(rw_children(p, x, n), tidy_expr(rw_children(p, x, n).node)),
    decreases x, 0nat,
{
    match x {
        ExprView::Ident(_) => {},
        ExprView::Str(_) => {},
        ExprView::Call(c) => {
            lemma_tidy_call(p, c, n);
        },
        ExprView::Member(m) => {
            lemma_tidy_member(p, m, n);
        },
        ExprView::Assign(a) => {
            lemma_tidy_assign(p, a, n);
        },
        ExprView::Object(props) => {
            lemma_tidy_props(p, props, n);
        },
        ExprView::Other(o) => {
            lemma_tidy_other(p, o, n);
        },
    }
}

/// Pass `p` on an expression leaves no placeholder.
pub proof fn lemma_tidy_expr(p: Pass, x: ExprView, n: nat)
    ensures
        left_tidy(rw_expr(p, x, n), tidy_expr(rw_expr(p, x, n).node)),
    decreases x, 1nat,
{
    let inner = rw_children(p, x, n);
    lemma_tidy_children(p, x, n);
    if !inner.fatal {
        lemma_tidy_on_expr(p, inner.node, n + inner.out.issued());
        lemma_tidy_concat(inner.out, on_expr(p, inner.node, n + inner.out.issued()).out);
    }
}

/// Pass `p` on the arguments of a call leaves no placeholder.
pub proof fn lemma_tidy_exprs(p: Pass, x: Seq<ExprView>, n: nat)
    ensures
        left_tidy(rw_exprs(p, x, n), tidy_exprs(rw_exprs(p, x, n).node)),
    decreases x, 0nat,
{
    if x.len() > 0 {
        let front = rw_exprs(p, x.drop_last(), n);
        let last = rw_expr(p, x.last(), n + front.out.issued());
        lemma_tidy_exprs(p, x.drop_last(), n);
        lemma_tidy_expr(p, x.last(), n + front.out.issued());
        lemma_tidy_concat(front.out, last.out);
    }
}

/// Pass `p` on an expression that may be absent leaves no placeholder.
pub proof fn lemma_tidy_opt_expr(p: Pass, x: Option<ExprView>, n: nat)
    ensures
        left_tidy(rw_opt_expr(p, x, n), tidy_opt_expr(rw_opt_expr(p, x, n).node)),
    decreases x, 0nat,
{
    match x {
        Some(e) => {
            lemma_tidy_expr(p, e, n);
        },
        None => {},
    }
}

/// Pass `p` on a key leaves no placeholder.
pub proof fn lemma_tidy_key(p: Pass, x: KeyView, n: nat)
    ensures
        left_tidy(rw_key(p, x, n), tidy_key(rw_key(p, x, n).node)),
    decreases x, 0nat,
{
    match x {
        KeyView::Ident(_) => {},
        KeyView::Str(_) => {},
        KeyView::Computed(e) => {
            lemma_tidy_expr(p, *e, n);
        },
        KeyView::Other(o) => {
            lemma_tidy_other(p, o, n);
        },
    }
}

/// Pass `p` on a property of an object literal leaves no placeholder.
pub proof fn lemma_tidy_prop(p: Pass, x: PropView, n: nat)
    ensures
        left_tidy(rw_prop(p, x, n), tidy_prop(rw_prop(p, x, n).node)),
    decreases x, 0nat,
{
    match x {
        PropView::Shorthand(_) => {},
        PropView::KeyValue { key, value } => {
            let k = rw_key(p, key, n);
            let v = rw_expr(p, value, n + k.out.issued());
            lemma_tidy_key(p, key, n);
            lemma_tidy_expr(p, value, n + k.out.issued());
            lemma_tidy_concat(k.out, v.out);
        },
        PropView::Other(o) => {
            lemma_tidy_other(p, o, n);
        },
    }
}

/// Pass `p` on the properties of an object literal leaves no placeholder.
pub proof fn lemma_tidy_props(p: Pass, x: Seq<PropView>, n: nat)
    ensures
        left_tidy(rw_props(p, x, n), tidy_props(rw_props(p, x, n).node)),
    decreases x, 0nat,
{
    if x.len() > 0 {
        let front = rw_props(p, x.drop_last(), n);
        let last = rw_prop(p, x.last(), n + front.out.issued());
        lemma_tidy_props(p, x.drop_last(), n);
        lemma_tidy_prop(p, x.last(), n + front.out.issued());
        lemma_tidy_concat(front.out, last.out);
    }
}

/// Pass `p` on a pattern leaves no placeholder.
pub proof fn lemma_tidy_pat(p: Pass, x: PatView, n: nat)
    ensures
        left_tidy(rw_pat(p, x, n), tidy_pat(rw_pat(p, x, n).node)),
    decreases x, 0nat,
{
    match x {
        PatView::Ident(_) => {},
        PatView::Object(props) => {
            lemma_tidy_pat_props(p, props, n);
        },
        PatView::Expr(e) => {
            lemma_tidy_expr(p, *e, n);
        },
        PatView::Other(o) => {
            lemma_tidy_other(p, o, n);
        },
    }
}

/// Pass `p` on a property of an object pattern leaves no placeholder.
pub proof fn lemma_tidy_pat_prop(p: Pass, x: ObjectPatPropView, n: nat)
    ensures
        left_tidy(rw_pat_prop(p, x, n), tidy_pat_prop(rw_pat_prop(p, x, n).node)),
    decreases x, 0nat,
{
    match x {
        ObjectPatPropView::Assign { name, default_value } => {
            lemma_tidy_opt_expr(p, default_value, n);
        },
        ObjectPatPropView::KeyValue { key, value } => {
            let k = rw_key(p, key, n);
            let v = rw_pat(p, value, n + k.out.issued());
            lemma_tidy_key(p, key, n);
            lemma_tidy_pat(p, value, n + k.out.issued());
            lemma_tidy_concat(k.out, v.out);
        },
        ObjectPatPropView::Other(o) => {
            lemma_tidy_other(p, o, n);
        },
    }
}

/// Pass `p` on the properties of an object pattern leaves no placeholder.
pub proof fn lemma_tidy_pat_props(p: Pass, x: Seq<ObjectPatPropView>, n: nat)
    ensures
        left_tidy(rw_pat_props(p, x, n), tidy_pat_props(rw_pat_props(p, x, n).node)),
    decreases x, 0nat,
{
    if x.len() > 0 {
        let front = rw_pat_props(p, x.drop_last(), n);
        let last = rw_pat_prop(p, x.last(), n + front.out.issued());
        lemma_tidy_pat_props(p, x.drop_last(), n);
        lemma_tidy_pat_prop(p, x.last(), n + front.out.issued());
        lemma_tidy_concat(front.out, last.out);
    }
}

/// Pass `p` on uninterpreted syntax leaves no placeholder.
pub proof fn lemma_tidy_other(p: Pass, x: OtherView, n: nat)
    ensures
        left_tidy(rw_other(p, x, n), tidy_other(rw_other(p, x, n).node)),
    decreases x, 0nat,
{
    lemma_tidy_parts(p, x.parts, n);
}

/// Pass `p` on a sub-tree of uninterpreted syntax leaves no placeholder.
pub proof fn lemma_tidy_part(p: Pass, x: PartView, n: nat)
    ensures
        left_tidy(rw_part(p, x, n), tidy_part(rw_part(p, x, n).node)),
    decreases x, 0nat,
{
    match x {
        PartView::Expr(e) => {
            lemma_tidy_expr(p, e, n);
        },
        PartView::Pat(q) => {
            lemma_tidy_pat(p, q, n);
        },
        PartView::Stmt(s) => {
            lemma_tidy_stmt(p, s, n);
        },
        PartView::Block(b) => {
            lemma_tidy_stmts(p, b, n);
        },
    }
}

/// Pass `p` on the sub-trees of uninterpreted syntax leaves no placeholder.
pub proof fn lemma_tidy_parts(p: Pass, x: Seq<PartView>, n: nat)
    ensures
        left_tidy(rw_parts(p, x, n), tidy_parts(rw_parts(p, x, n).node)),
    decreases x, 0nat,
{
    if x.len() > 0 {
        let front = rw_parts(p, x.drop_last(), n);
        let last = rw_part(p, x.last(), n + front.out.issued());
        lemma_tidy_parts(p, x.drop_last(), n);
        lemma_tidy_part(p, x.last(), n + front.out.issued());
        lemma_tidy_concat(front.out, last.out);
    }
}

/// Pass `p` on a declarator leaves no placeholder.
pub proof fn lemma_tidy_declarator(p: Pass, x: VarDeclaratorView, n: nat)
    ensures
        left_tidy(rw_declarator(p, x, n), tidy_remaining(rw_declarator(p, x, n).node)),
    decreases x, 0nat,
{
    let name = rw_pat(p, x.name, n);
    let init = rw_opt_expr(p, x.init, n + name.out.issued());
    lemma_tidy_pat(p, x.name, n);
    lemma_tidy_opt_expr(p, x.init, n + name.out.issued());
    lemma_tidy_concat(name.out, init.out);
    if !name.fatal && !init.fatal {
        let inner = VarDeclaratorView { name: name.node, init: init.node };
        lemma_tidy_on_declarator(p, inner);
        lemma_tidy_concat(name.out.concat(init.out), on_declarator(p, inner).out);
    }
}

/// Pass `p` on the declarators of a declaration leaves no placeholder.
pub proof fn lemma_tidy_declarators(p: Pass, x: Seq<VarDeclaratorView>, n: nat)
    ensures
        left_tidy(rw_declarators(p, x, n), tidy_declarators(rw_declarators(p, x, n).node)),
    decreases x, 0nat,
{
    if x.len() > 0 {
        let front = rw_declarators(p, x.drop_last(), n);
        let last = rw_declarator(p, x.last(), n + front.out.issued());
        lemma_tidy_declarators(p, x.drop_last(), n);
        lemma_tidy_declarator(p, x.last(), n + front.out.issued());
        lemma_tidy_concat(front.out, last.out);
    }
}

/// Pass `p` on a statement leaves no placeholder.
pub proof fn lemma_tidy_stmt(p: Pass, x: StmtView, n: nat)
    ensures
        left_tidy(rw_stmt(p, x, n), tidy_stmt(rw_stmt(p, x, n).node)),
    decreases x, 0nat,
{
    match x {
        StmtView::Empty => {},
        StmtView::Expr(e) => {
            let inner = rw_expr(p, e, n);
            lemma_tidy_expr(p, e, n);
            if !inner.fatal {
                lemma_tidy_on_expr_stmt(p, inner.node, n + inner.out.issued());
                lemma_tidy_concat(
                    inner.out,
                    on_expr_stmt(p, inner.node, n + inner.out.issued()).out,
                );
            }
        },
        StmtView::Var(d) => {
            lemma_tidy_declarators(p, d.decls, n);
        },
        StmtView::Other(o) => {
            lemma_tidy_other(p, o, n);
        },
    }
}

/// Pass `p` on a statement list leaves no placeholder.
pub proof fn lemma_tidy_stmts(p: Pass, x: Seq<StmtView>, n: nat)
    ensures
        left_tidy(rw_stmts(p, x, n), tidy_stmts(rw_stmts(p, x, n).node)),
    decreases x, 0nat,
{
    if x.len() > 0 {
        let front = rw_stmts(p, x.drop_last(), n);
        let last = rw_stmt(p, x.last(), n + front.out.issued());
        lemma_tidy_stmts(p, x.drop_last(), n);
        lemma_tidy_stmt(p, x.last(), n + front.out.issued());
        lemma_tidy_concat(front.out, last.out);
    }
}

/// Pass `p` on an item of a module leaves no placeholder.
pub proof fn lemma_tidy_item(p: Pass, x: ModuleItemView, n: nat)
    ensures
        left_tidy(rw_item(p, x, n), tidy_loose_item(rw_item(p, x, n).node)),
{
    match x {
        ModuleItemView::Stmt(s) => {
            lemma_tidy_stmt(p, s, n);
        },
        ModuleItemView::Import(_) => {},
        ModuleItemView::ExportNamed(_) => {},
        ModuleItemView::ExportDefault(e) => {
            lemma_tidy_expr(p, e, n);
        },
        ModuleItemView::ExportConst { name, init } => {
            lemma_tidy_expr(p, init, n);
        },
        ModuleItemView::Other(o) => {
            lemma_tidy_other(p, o, n);
        },
    }
}

/// An item that is tidy but for being, perhaps, the empty statement.
pub open spec fn tidy_loose_item(item: ModuleItemView) -> bool {
    item == ModuleItemView::Stmt(StmtView::Empty) || tidy_item(item)
}

/// Pass `p` on the items of a module leaves no placeholder.
pub proof fn lemma_tidy_items(p: Pass, x: Seq<ModuleItemView>, n: nat)
    ensures
        left_tidy(rw_items(p, x, n), tidy_items(rw_items(p, x, n).node)),
    decreases x.len(),
{
    if x.len() > 0 {
        let front = rw_items(p, x.drop_last(), n);
        let last = rw_item(p, x.last(), n + front.out.issued());
        lemma_tidy_items(p, x.drop_last(), n);
        lemma_tidy_item(p, x.last(), n + front.out.issued());
        lemma_tidy_concat(front.out, last.out);
    }
}

/// Whatever module a pass is given, the module that it hands on holds no
/// placeholder: no statement list in it holds an empty statement, and no
/// variable declaration in it is without declarators.
pub proof fn law_pass_output_is_tidy(p: Pass, m: ModuleView)
    ensures
        apply(p, m) matches Ok(out) ==> tidy_module(out.module),
{
    reveal(apply);
    let r = rw_items(p, m.body, 0);
    lemma_tidy_items(p, m.body, 0);
    if !r.fatal {
        let body = flush(r.node, r.out);
        assert forall|i: int| 0 <= i < body.len() implies tidy_item(#[trigger] body[i]) by {
            let a = import_items(r.out.imports);
            let b = hoisted_items(r.out.decls);
            if i < a.len() {
                assert(body[i] == a[i]);
            } else if i < a.len() + r.node.len() {
                assert(body[i] == r.node[i - a.len()]);
            } else if i < a.len() + r.node.len() + b.len() {
                let j = i - a.len() - r.node.len();
                assert(body[i] == b[j]);
                assert(tidy_declarator(r.out.decls[j]));
                let one = seq![r.out.decls[j]];
                assert(tidy_declarator(one[0]));
            } else if i < a.len() + r.node.len() + b.len() + r.out.exports.len() {
                assert(body[i] == r.out.exports[i - a.len() - r.node.len() - b.len()]);
            } else {
                let d = default_items(added_default(r.node, r.out.default_export));
                assert(body[i] == d[i - a.len() - r.node.len() - b.len() - r.out.exports.len()]);
            }
        }
    }
}

/// Whatever module the cascade is given, the module that it hands on holds
/// no placeholder.
pub proof fn law_cascade_output_is_tidy(m: ModuleView)
    ensures
        cascade(m) matches Ok(out) ==> tidy_module(out.module),
{
    let a = followed_by(untouched(m), Pass::RequireStatement);
    let b = followed_by(a, Pass::RequireIdent);
    let c = followed_by(b, Pass::PureDestructuredRequire);
    let d = followed_by(c, Pass::RequireFallback);
    let e = followed_by(d, Pass::ModuleExportsIdent);
    let f = followed_by(e, Pass::ModuleExportsNamedExpr);
    let g = followed_by(f, Pass::ExportDefaultObject);
    if g is Ok {
        law_pass_output_is_tidy(Pass::ModuleDefaultExport, g->Ok_0.module);
    }
}

} // verus!