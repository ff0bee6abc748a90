//! One pass over a module: the traversal that every rule shares, and the
//! cleanup that goes with it.
//!
//! The traversal is unrestricted by nesting depth: it enters blocks, function
//! bodies and every other sub-tree, so a rule applies to a statement inside a
//! function as it does at the top level. A node is visited after its
//! sub-trees, from left to right. A statement that a rule has taken away
//! leaves its statement list; so does every empty statement, and every
//! variable declaration that has no declarator left.
use crate::ast::{
    declarators_view, exprs_view, items_view, opt_expr_view, parts_view, pat_props_view, props_view,
    stmts_view, AssignExpr, AssignExprView, CallExpr, CallExprView, ExportSpecifier, Expr, ExprView,
    ImportDecl, ImportDeclView, ImportSpecifier, Key, KeyView, MemberExpr, MemberExprView, Module,
    ModuleItem, ModuleItemView, ModuleView, NamedExport, ObjectPatProp, ObjectPatPropView, Other,
    OtherView, Part, PartView, Pat, PatView, Prop, PropView, Stmt, StmtView, VarDecl, VarDeclarator,
    VarDeclaratorView, VarDeclKind, VarDeclView,
};
use crate::tidy::{law_pass_output_is_tidy, tidy_module};
use crate::utils::RewriteError;
use crate::visitors::{
    default_export_of_ident, default_export_of_value, destructured_require, export_of_object,
    export_one, fallback_require, ident_bound_require, keep, meets, named_export_of_property,
    require_statement, single_export, viewed, viewed_declarator, DefaultExport, DefaultExportView,
    DefaultFinding, DefaultFindingView, Pass, Pending, PendingView, Rewrite,
    TransformExportDefaultObject, TransformModuleDefaultExport, TransformModuleExportsIdentVisitor,
    TransformModuleExportsNamedExprVisitor, TransformPureDestructuredRequireVisitor,
    TransformRequireFallback, TransformRequireIdentVisitor, TransformRequireStatementVistor,
    Warning,
};
use vstd::prelude::*;

verus! {

/// What pass `p` does to the expression of an expression statement whose
/// sub-trees are done.
#[verifier::opaque]
pub open spec fn on_expr_stmt(p: Pass, e: ExprView, n: nat) -> Rewrite<StmtView> {
    match p {
        Pass::RequireStatement => require_statement(e),
        Pass::ModuleExportsIdent => default_export_of_ident(e),
        Pass::ModuleExportsNamedExpr => named_export_of_property(e),
        Pass::ExportDefaultObject => export_of_object(e, n),
        Pass::ModuleDefaultExport => default_export_of_value(e),
        _ => keep(StmtView::Expr(e)),
    }
}

/// What pass `p` does to a declarator whose sub-trees are done.
#[verifier::opaque]
pub open spec fn on_declarator(p: Pass, d: VarDeclaratorView) -> Rewrite<
    Option<VarDeclaratorView>,
> {
    match p {
        Pass::RequireIdent => ident_bound_require(d),
        Pass::PureDestructuredRequire => destructured_require(d),
        _ => keep(Some(d)),
    }
}

/// What pass `p` does to an expression whose sub-trees are done.
#[verifier::opaque]
pub open spec fn on_expr(p: Pass, e: ExprView, n: nat) -> Rewrite<ExprView> {
    match p {
        Pass::RequireFallback => fallback_require(e, n),
        _ => keep(e),
    }
}

/// What holds after `first` and then `second`, with `node` in the place of
/// the two.
pub open spec fn both<A, B, C>(first: Rewrite<A>, second: Rewrite<B>, node: C) -> Rewrite<C> {
    Rewrite { node, out: first.out.concat(second.out), fatal: first.fatal || second.fatal }
}

/// The same outcome around another node.
pub open spec fn wrap<A, C>(inner: Rewrite<A>, node: C) -> Rewrite<C> {
    Rewrite { node, out: inner.out, fatal: inner.fatal }
}

/// Recording is associative, and the counter adds up.
pub proof fn lemma_concat_assoc(a: PendingView, b: PendingView, c: PendingView)
    ensures
        a.concat(b).concat(c) == a.concat(b.concat(c)),
        a.concat(b).issued() == a.issued() + b.issued(),
{
    assert(a.concat(b).concat(c) =~~= a.concat(b.concat(c)));
}

/// Recording nothing changes nothing.
pub proof fn lemma_concat_empty(a: PendingView)
    ensures
        a.concat(PendingView::empty()) == a,
        PendingView::empty().concat(a) == a,
{
    assert(a.concat(PendingView::empty()) =~~= a);
    assert(PendingView::empty().concat(a) =~~= a);
}

/// Pass `p` on the sub-trees of a call.
pub open spec fn rw_call(p: Pass, c: CallExprView, n: nat) -> Rewrite<CallExprView>
    decreases c, 0nat,
{
    let callee = rw_expr(p, *c.callee, n);
    let args = rw_exprs(p, c.args, n + callee.out.issued());
    both(callee, args, CallExprView { callee: Box::new(callee.node), args: args.node })
}

/// Pass `p` on the sub-trees of a member access.
pub open spec fn rw_member(p: Pass, m: MemberExprView, n: nat) -> Rewrite<MemberExprView>
    decreases m, 0nat,
{
    let obj = rw_expr(p, *m.obj, n);
    let prop = rw_key(p, m.prop, n + obj.out.issued());
    both(obj, prop, MemberExprView { obj: Box::new(obj.node), prop: prop.node })
}

/// Pass `p` on the sub-trees of an assignment.
pub open spec fn rw_assign(p: Pass, a: AssignExprView, n: nat) -> Rewrite<AssignExprView>
    decreases a, 0nat,
{
    let left = rw_pat(p, a.left, n);
    let right = rw_expr(p, *a.right, n + left.out.issued());
    both(left, right, AssignExprView { left: left.node, right: Box::new(right.node) })
}

/// Pass `p` on the sub-trees of the expression `e`.
pub open spec fn rw_children(p: Pass, e: ExprView, n: nat) -> Rewrite<ExprView>
    decreases e, 0nat,
{
    match e {
        ExprView::Ident(_) => keep(e),
        ExprView::Str(_) => keep(e),
        ExprView::Call(c) => {
            let inner = rw_call(p, c, n);
            wrap(inner, ExprView::Call(inner.node))
        },
        ExprView::Member(m) => {
            let inner = rw_member(p, m, n);
            wrap(inner, ExprView::Member(inner.node))
        },
        ExprView::Assign(a) => {
            let inner = rw_assign(p, a, n);
            wrap(inner, ExprView::Assign(inner.node))
        },
        ExprView::Object(props) => {
            let inner = rw_props(p, props, n);
            wrap(inner, ExprView::Object(inner.node))
        },
        ExprView::Other(o) => {
            let inner = rw_other(p, o, n);
            wrap(inner, ExprView::Other(inner.node))
        },
    }
}

/// Pass `p` on the expression `e`, where `n` synthetic names are in use: its
/// sub-trees first, then the rule.
pub open spec fn rw_expr(p: Pass, e: ExprView, n: nat) -> Rewrite<ExprView>
    decreases e, 1nat,
{
    let inner = rw_children(p, e, n);
    let rule = on_expr(p, inner.node, n + inner.out.issued());
    both(inner, rule, rule.node)
}

/// Pass `p` on the arguments of a call, in order.
pub open spec fn rw_exprs(p: Pass, s: Seq<ExprView>, n: nat) -> Rewrite<Seq<ExprView>>
    decreases s, 0nat,
{
    if s.len() == 0 {
        keep(Seq::empty())
    } else {
        let front = rw_exprs(p, s.drop_last(), n);
        let last = rw_expr(p, s.last(), n + front.out.issued());
        both(front, last, front.node.push(last.node))
    }
}

/// Pass `p` on an expression that may be absent.
pub open spec fn rw_opt_expr(p: Pass, e: Option<ExprView>, n: nat) -> Rewrite<Option<ExprView>>
    decreases e, 0nat,
{
    match e {
        Some(x) => {
            let inner = rw_expr(p, x, n);
            wrap(inner, Some(inner.node))
        },
        None => keep(None),
    }
}

/// Pass `p` on a key.
pub open spec fn rw_key(p: Pass, k: KeyView, n: nat) -> Rewrite<KeyView>
    decreases k, 0nat,
{
    match k {
        KeyView::Ident(_) => keep(k),
        KeyView::Str(_) => keep(k),
        KeyView::Computed(e) => {
            let inner = rw_expr(p, *e, n);
            wrap(inner, KeyView::Computed(Box::new(inner.node)))
        },
        KeyView::Other(o) => {
            let inner = rw_other(p, o, n);
            wrap(inner, KeyView::Other(inner.node))
        },
    }
}

/// Pass `p` on one property of an object literal.
pub open spec fn rw_prop(p: Pass, x: PropView, n: nat) -> Rewrite<PropView>
    decreases x, 0nat,
{
    match x {
        PropView::Shorthand(_) => keep(x),
        PropView::KeyValue { key, value } => {
            let k = rw_key(p, key, n);
            let v = rw_expr(p, value, n + k.out.issued());
            both(k, v, PropView::KeyValue { key: k.node, value: v.node })
        },
        PropView::Other(o) => {
            let inner = rw_other(p, o, n);
            wrap(inner, PropView::Other(inner.node))
        },
    }
}

/// Pass `p` on the properties of an object literal, in order.
pub open spec fn rw_props(p: Pass, s: Seq<PropView>, n: nat) -> Rewrite<Seq<PropView>>
    decreases s, 0nat,
{
    if s.len() == 0 {
        keep(Seq::empty())
    } else {
        let front = rw_props(p, s.drop_last(), n);
        let last = rw_prop(p, s.last(), n + front.out.issued());
        both(front, last, front.node.push(last.node))
    }
}

/// Pass `p` on a pattern.
pub open spec fn rw_pat(p: Pass, x: PatView, n: nat) -> Rewrite<PatView>
    decreases x, 0nat,
{
    match x {
        PatView::Ident(_) => keep(x),
        PatView::Object(props) => {
            let inner = rw_pat_props(p, props, n);
            wrap(inner, PatView::Object(inner.node))
        },
        PatView::Expr(e) => {
            let inner = rw_expr(p, *e, n);
            wrap(inner, PatView::Expr(Box::new(inner.node)))
        },
        PatView::Other(o) => {
            let inner = rw_other(p, o, n);
            wrap(inner, PatView::Other(inner.node))
        },
    }
}

/// Pass `p` on one property of an object pattern.
pub open spec fn rw_pat_prop(p: Pass, x: ObjectPatPropView, n: nat) -> Rewrite<ObjectPatPropView>
    decreases x, 0nat,
{
    match x {
        ObjectPatPropView::Assign { name, default_value } => {
            let inner = rw_opt_expr(p, default_value, n);
            wrap(inner, ObjectPatPropView::Assign { name, default_value: inner.node })
        },
        ObjectPatPropView::KeyValue { key, value } => {
            let k = rw_key(p, key, n);
            let v = rw_pat(p, value, n + k.out.issued());
            both(k, v, ObjectPatPropView::KeyValue { key: k.node, value: v.node })
        },
        ObjectPatPropView::Other(o) => {
            let inner = rw_other(p, o, n);
            wrap(inner, ObjectPatPropView::Other(inner.node))
        },
    }
}

/// Pass `p` on the properties of an object pattern, in order.
pub open spec fn rw_pat_props(p: Pass, s: Seq<ObjectPatPropView>, n: nat) -> Rewrite<
    Seq<ObjectPatPropView>,
>
    decreases s, 0nat,
{
    if s.len() == 0 {
        keep(Seq::empty())
    } else {
        let front = rw_pat_props(p, s.drop_last(), n);
        let last = rw_pat_prop(p, s.last(), n + front.out.issued());
        both(front, last, front.node.push(last.node))
    }
}

/// Pass `p` inside syntax that no rule interprets: the parts are rewritten,
/// the handle and the sort of each part stay.
pub open spec fn rw_other(p: Pass, o: OtherView, n: nat) -> Rewrite<OtherView>
    decreases o, 0nat,
{
    let inner = rw_parts(p, o.parts, n);
    wrap(inner, OtherView { tag: o.tag, parts: inner.node })
}

/// Pass `p` on one sub-tree of uninterpreted syntax.
pub open spec fn rw_part(p: Pass, x: PartView, n: nat) -> Rewrite<PartView>
    decreases x, 0nat,
{
    match x {
        PartView::Expr(e) => {
            let inner = rw_expr(p, e, n);
            wrap(inner, PartView::Expr(inner.node))
        },
        PartView::Pat(q) => {
            let inner = rw_pat(p, q, n);
            wrap(inner, PartView::Pat(inner.node))
        },
        PartView::Stmt(s) => {
            let inner = rw_stmt(p, s, n);
            wrap(inner, PartView::Stmt(inner.node))
        },
        PartView::Block(b) => {
            let inner = rw_stmts(p, b, n);
            wrap(inner, PartView::Block(inner.node))
        },
    }
}

/// Pass `p` on the sub-trees of uninterpreted syntax, in order.
pub open spec fn rw_parts(p: Pass, s: Seq<PartView>, n: nat) -> Rewrite<Seq<PartView>>
    decreases s, 0nat,
{
    if s.len() == 0 {
        keep(Seq::empty())
    } else {
        let front = rw_parts(p, s.drop_last(), n);
        let last = rw_part(p, s.last(), n + front.out.issued());
        both(front, last, front.node.push(last.node))
    }
}

/// Pass `p` on one declarator: its sub-trees first, then the rule. `None` as
/// the node says that the declarator leaves its declaration.
pub open spec fn rw_declarator(p: Pass, d: VarDeclaratorView, n: nat) -> Rewrite<
    Option<VarDeclaratorView>,
>
    decreases d, 0nat,
{
    let name = rw_pat(p, d.name, n);
    let init = rw_opt_expr(p, d.init, n + name.out.issued());
    let inner = both(name, init, VarDeclaratorView { name: name.node, init: init.node });
    let rule = on_declarator(p, inner.node);
    both(inner, rule, rule.node)
}

/// Pass `p` on the declarators of a declaration, in order: those that stay.
pub open spec fn rw_declarators(p: Pass, s: Seq<VarDeclaratorView>, n: nat) -> Rewrite<
    Seq<VarDeclaratorView>,
>
    decreases s, 0nat,
{
    if s.len() == 0 {
        keep(Seq::empty())
    } else {
        let front = rw_declarators(p, s.drop_last(), n);
        let last = rw_declarator(p, s.last(), n + front.out.issued());
        both(
            front,
            last,
            match last.node {
                Some(d) => front.node.push(d),
                None => front.node,
            },
        )
    }
}

/// Pass `p` on one statement. A statement that the pass takes away, and a
/// variable declaration without declarators, become the empty statement.
pub open spec fn rw_stmt(p: Pass, s: StmtView, n: nat) -> Rewrite<StmtView>
    decreases s, 0nat,
{
    match s {
        StmtView::Empty => keep(s),
        StmtView::Expr(e) => {
            let inner = rw_expr(p, e, n);
            let rule = on_expr_stmt(p, inner.node, n + inner.out.issued());
            both(inner, rule, rule.node)
        },
        StmtView::Var(d) => {
            let inner = rw_declarators(p, d.decls, n);
            wrap(
                inner,
                if inner.node.len() == 0 {
                    StmtView::Empty
                } else {
                    StmtView::Var(VarDeclView { kind: d.kind, decls: inner.node })
                },
            )
        },
        StmtView::Other(o) => {
            let inner = rw_other(p, o, n);
            wrap(inner, StmtView::Other(inner.node))
        },
    }
}

/// Pass `p` on a statement list: every statement in order, without the empty
/// statements.
pub open spec fn rw_stmts(p: Pass, s: Seq<StmtView>, n: nat) -> Rewrite<Seq<StmtView>>
    decreases s, 0nat,
{
    if s.len() == 0 {
        keep(Seq::empty())
    } else {
        let front = rw_stmts(p, s.drop_last(), n);
        let last = rw_stmt(p, s.last(), n + front.out.issued());
        both(
            front,
            last,
            if last.node is Empty {
                front.node
            } else {
                front.node.push(last.node)
            },
        )
    }
}

/// Pass `p` on one item of a module.
pub open spec fn rw_item(p: Pass, item: ModuleItemView, n: nat) -> Rewrite<ModuleItemView> {
    match item {
        ModuleItemView::Stmt(s) => {
            let inner = rw_stmt(p, s, n);
            wrap(inner, ModuleItemView::Stmt(inner.node))
        },
        ModuleItemView::Import(_) => keep(item),
        ModuleItemView::ExportNamed(_) => keep(item),
        ModuleItemView::ExportDefault(e) => {
            let inner = rw_expr(p, e, n);
            wrap(inner, ModuleItemView::ExportDefault(inner.node))
        },
        ModuleItemView::ExportConst { name, init } => {
            let inner = rw_expr(p, init, n);
            wrap(inner, ModuleItemView::ExportConst { name, init: inner.node })
        },
        ModuleItemView::Other(o) => {
            let inner = rw_other(p, o, n);
            wrap(inner, ModuleItemView::Other(inner.node))
        },
    }
}

/// Pass `p` on the items of a module: every item in order, without the empty
/// statements.
pub open spec fn rw_items(p: Pass, s: Seq<ModuleItemView>, n: nat) -> Rewrite<Seq<ModuleItemView>>
    decreases s.len(),
{
    if s.len() == 0 {
        keep(Seq::empty())
    } else {
        let front = rw_items(p, s.drop_last(), n);
        let last = rw_item(p, s.last(), n + front.out.issued());
        both(
            front,
            last,
            if last.node == ModuleItemView::Stmt(StmtView::Empty) {
                front.node
            } else {
                front.node.push(last.node)
            },
        )
    }
}

/// An unresolvable `require` among the first `k` elements is one in the
/// whole list.
pub proof fn lemma_exprs_fatal_prefix(p: Pass, s: Seq<ExprView>, n: nat, k: int)
    requires
        0 <= k <= s.len(),
        rw_exprs(p, s.take(k), n).fatal,
    ensures
        rw_exprs(p, s, n).fatal,
    decreases s.len(),
{
    if k == s.len() {
        assert(s.take(k) =~= s);
    } else {
        assert(s.drop_last().take(k) =~= s.take(k));
        lemma_exprs_fatal_prefix(p, s.drop_last(), n, k);
    }
}

/// An unresolvable `require` among the first `k` elements is one in the
/// whole list.
pub proof fn lemma_props_fatal_prefix(p: Pass, s: Seq<PropView>, n: nat, k: int)
    requires
        0 <= k <= s.len(),
        rw_props(p, s.take(k), n).fatal,
    ensures
        rw_props(p, s, n).fatal,
    decreases s.len(),
{
    if k == s.len() {
        assert(s.take(k) =~= s);
    } else {
        assert(s.drop_last().take(k) =~= s.take(k));
        lemma_props_fatal_prefix(p, s.drop_last(), n, k);
    }
}

/// An unresolvable `require` among the first `k` elements is one in the
/// whole list.
pub proof fn lemma_pat_props_fatal_prefix(p: Pass, s: Seq<ObjectPatPropView>, n: nat, k: int)
    requires
        0 <= k <= s.len(),
        rw_pat_props(p, s.take(k), n).fatal,
    ensures
        rw_pat_props(p, s, n).fatal,
    decreases s.len(),
{
    if k == s.len() {
        assert(s.take(k) =~= s);
    } else {
        assert(s.drop_last().take(k) =~= s.take(k));
        lemma_pat_props_fatal_prefix(p, s.drop_last(), n, k);
    }
}

/// An unresolvable `require` among the first `k` elements is one in the
/// whole list.
pub proof fn lemma_parts_fatal_prefix(p: Pass, s: Seq<PartView>, n: nat, k: int)
    requires
        0 <= k <= s.len(),
        rw_parts(p, s.take(k), n).fatal,
    ensures
        rw_parts(p, s, n).fatal,
    decreases s.len(),
{
    if k == s.len() {
        assert(s.take(k) =~= s);
    } else {
        assert(s.drop_last().take(k) =~= s.take(k));
        lemma_parts_fatal_prefix(p, s.drop_last(), n, k);
    }
}

/// An unresolvable `require` among the first `k` elements is one in the
/// whole list.
pub proof fn lemma_declarators_fatal_prefix(p: Pass, s: Seq<VarDeclaratorView>, n: nat, k: int)
    requires
        0 <= k <= s.len(),
        rw_declarators(p, s.take(k), n).fatal,
    ensures
        rw_declarators(p, s, n).fatal,
    decreases s.len(),
{
    if k == s.len() {
        assert(s.take(k) =~= s);
    } else {
        assert(s.drop_last().take(k) =~= s.take(k));
        lemma_declarators_fatal_prefix(p, s.drop_last(), n, k);
    }
}

/// An unresolvable `require` among the first `k` elements is one in the
/// whole list.
pub proof fn lemma_stmts_fatal_prefix(p: Pass, s: Seq<StmtView>, n: nat, k: int)
    requires
        0 <= k <= s.len(),
        rw_stmts(p, s.take(k), n).fatal,
    ensures
        rw_stmts(p, s, n).fatal,
    decreases s.len(),
{
    if k == s.len() {
        assert(s.take(k) =~= s);
    } else {
        assert(s.drop_last().take(k) =~= s.take(k));
        lemma_stmts_fatal_prefix(p, s.drop_last(), n, k);
    }
}

/// An unresolvable `require` among the first `k` elements is one in the
/// whole list.
pub proof fn lemma_items_fatal_prefix(p: Pass, s: Seq<ModuleItemView>, n: nat, k: int)
    requires
        0 <= k <= s.len(),
        rw_items(p, s.take(k), n).fatal,
    ensures
        rw_items(p, s, n).fatal,
    decreases s.len(),
{
    if k == s.len() {
        assert(s.take(k) =~= s);
    } else {
        assert(s.drop_last().take(k) =~= s.take(k));
        lemma_items_fatal_prefix(p, s.drop_last(), n, k);
    }
}


/// The rule of `pass` for the expression of an expression statement.
pub fn visit_expr_stmt(pass: Pass, ctx: &mut Pending, expr: Expr) -> (r: Result<
    Stmt,
    RewriteError,
>)
    ensures
        meets(on_expr_stmt(pass, expr@, old(ctx)@.issued()), old(ctx)@, final(ctx)@, viewed(r)),
{
    proof {
        reveal(on_expr_stmt);
    }
    match pass {
        Pass::RequireStatement => TransformRequireStatementVistor::new().visit_mut_expr_stmt(
            ctx,
            expr,
        ),
        Pass::ModuleExportsIdent => TransformModuleExportsIdentVisitor::new().visit_mut_assign_expr(
            ctx,
            expr,
        ),
        Pass::ModuleExportsNamedExpr => TransformModuleExportsNamedExprVisitor::new()
            .visit_mut_assign_expr(ctx, expr),
        Pass::ExportDefaultObject => TransformExportDefaultObject::new().visit_mut_assign_expr(
            ctx,
            expr,
        ),
        Pass::ModuleDefaultExport => TransformModuleDefaultExport::new().visit_mut_assign_expr(
            ctx,
            expr,
        ),
        _ => Ok(Stmt::Expr(expr)),
    }
}

/// The rule of `pass` for a declarator.
pub fn visit_declarator(pass: Pass, ctx: &mut Pending, d: VarDeclarator) -> (r: Result<
    Option<VarDeclarator>,
    RewriteError,
>)
    ensures
        meets(on_declarator(pass, d@), old(ctx)@, final(ctx)@, viewed_declarator(r)),
{
    proof {
        reveal(on_declarator);
    }
    match pass {
        Pass::RequireIdent => TransformRequireIdentVisitor::new().visit_mut_var_declarator(ctx, d),
        Pass::PureDestructuredRequire => TransformPureDestructuredRequireVisitor::new()
            .visit_mut_var_declarator(ctx, d),
        _ => Ok(Some(d)),
    }
}

/// The rule of `pass` for an expression.
pub fn visit_expr(pass: Pass, ctx: &mut Pending, expr: Expr) -> (r: Result<Expr, RewriteError>)
    ensures
        meets(on_expr(pass, expr@, old(ctx)@.issued()), old(ctx)@, final(ctx)@, viewed(r)),
{
    proof {
        reveal(on_expr);
    }
    match pass {
        Pass::RequireFallback => TransformRequireFallback::new().visit_mut_expr(ctx, expr),
        _ => Ok(expr),
    }
}

/// Runs the pass on the sub-trees of a call.
pub fn rewrite_call(pass: Pass, ctx: &mut Pending, c: &CallExpr) -> (r: Result<
    CallExpr,
    RewriteError,
>)
    ensures
        meets(rw_call(pass, c@, old(ctx)@.issued()), old(ctx)@, final(ctx)@, viewed(r)),
    decreases c, 0nat,
{
    let ghost c0 = ctx@;
    let ghost a = rw_expr(pass, *c@.callee, c0.issued());
    let ghost b = rw_exprs(pass, c@.args, c0.issued() + a.out.issued());
    let callee = rewrite_expr(pass, ctx, &c.callee)?;
    let args = rewrite_exprs(pass, ctx, &c.args)?;
    proof {
        lemma_concat_assoc(c0, a.out, b.out);
    }
    Ok(CallExpr { callee: Box::new(callee), args })
}

/// Runs the pass on the sub-trees of a member access.
pub fn rewrite_member(pass: Pass, ctx: &mut Pending, m: &MemberExpr) -> (r: Result<
    MemberExpr,
    RewriteError,
>)
    ensures
        meets(rw_member(pass, m@, old(ctx)@.issued()), old(ctx)@, final(ctx)@, viewed(r)),
    decreases m, 0nat,
{
    let ghost c0 = ctx@;
    let ghost a = rw_expr(pass, *m@.obj, c0.issued());
    let ghost b = rw_key(pass, m@.prop, c0.issued() + a.out.issued());
    let obj = rewrite_expr(pass, ctx, &m.obj)?;
    let prop = rewrite_key(pass, ctx, &m.prop)?;
    proof {
        lemma_concat_assoc(c0, a.out, b.out);
    }
    Ok(MemberExpr { obj: Box::new(obj), prop })
}

/// Runs the pass on the sub-trees of an assignment.
pub fn rewrite_assign(pass: Pass, ctx: &mut Pending, x: &AssignExpr) -> (r: Result<
    AssignExpr,
    RewriteError,
>)
    ensures
        meets(rw_assign(pass, x@, old(ctx)@.issued()), old(ctx)@, final(ctx)@, viewed(r)),
    decreases x, 0nat,
{
    let ghost c0 = ctx@;
    let ghost a = rw_pat(pass, x@.left, c0.issued());
    let ghost b = rw_expr(pass, *x@.right, c0.issued() + a.out.issued());
    let left = rewrite_pat(pass, ctx, &x.left)?;
    let right = rewrite_expr(pass, ctx, &x.right)?;
    proof {
        lemma_concat_assoc(c0, a.out, b.out);
    }
    Ok(AssignExpr { left, right: Box::new(right) })
}

/// Runs the pass on the sub-trees of an expression.
pub fn rewrite_children(pass: Pass, ctx: &mut Pending, e: &Expr) -> (r: Result<Expr, RewriteError>)
    ensures
        meets(rw_children(pass, e@, old(ctx)@.issued()), old(ctx)@, final(ctx)@, viewed(r)),
    decreases e, 0nat,
{
    proof {
        lemma_concat_empty(ctx@);
    }
    match e {
        Expr::Ident(name) => Ok(Expr::Ident(name.clone())),
        Expr::Str(value) => Ok(Expr::Str(value.clone())),
        Expr::Call(c) => Ok(Expr::Call(rewrite_call(pass, ctx, c)?)),
        Expr::Member(m) => Ok(Expr::Member(rewrite_member(pass, ctx, m)?)),
        Expr::Assign(a) => Ok(Expr::Assign(rewrite_assign(pass, ctx, a)?)),
        Expr::Object(props) => Ok(Expr::Object(rewrite_props(pass, ctx, props)?)),
        Expr::Other(o) => Ok(Expr::Other(rewrite_other(pass, ctx, o)?)),
    }
}

/// Runs the pass on an expression: on its sub-trees first, then the rule on
/// what they have become.
pub fn rewrite_expr(pass: Pass, ctx: &mut Pending, e: &Expr) -> (r: Result<Expr, RewriteError>)
    ensures
        meets(rw_expr(pass, e@, old(ctx)@.issued()), old(ctx)@, final(ctx)@, viewed(r)),
    decreases e, 1nat,
{
    let ghost c0 = ctx@;
    let ghost a = rw_children(pass, e@, c0.issued());
    let inner = rewrite_children(pass, ctx, e)?;
    let r = visit_expr(pass, ctx, inner);
    proof {
        lemma_concat_assoc(c0, a.out, on_expr(pass, a.node, c0.issued() + a.out.issued()).out);
    }
    r
}

/// Runs the pass on an expression that may be absent.
pub fn rewrite_opt_expr(pass: Pass, ctx: &mut Pending, e: &Option<Expr>) -> (r: Result<
    Option<Expr>,
    RewriteError,
>)
    ensures
        meets(
            rw_opt_expr(pass, opt_expr_view(*e), old(ctx)@.issued()),
            old(ctx)@,
            final(ctx)@,
            match r {
                Ok(x) => Some(opt_expr_view(x)),
                Err(_) => None,
            },
        ),
    decreases e, 0nat,
{
    match e {
        Some(x) => Ok(Some(rewrite_expr(pass, ctx, x)?)),
        None => Ok(None),
    }
}

/// Runs the pass on a key.
pub fn rewrite_key(pass: Pass, ctx: &mut Pending, k: &Key) -> (r: Result<Key, RewriteError>)
    ensures
        meets(rw_key(pass, k@, old(ctx)@.issued()), old(ctx)@, final(ctx)@, viewed(r)),
    decreases k, 0nat,
{
    match k {
        Key::Ident(name) => Ok(Key::Ident(name.clone())),
        Key::Str(value) => Ok(Key::Str(value.clone())),
        Key::Computed(e) => Ok(Key::Computed(Box::new(rewrite_expr(pass, ctx, e)?))),
        Key::Other(o) => Ok(Key::Other(rewrite_other(pass, ctx, o)?)),
    }
}

/// Runs the pass on one property of an object literal.
pub fn rewrite_prop(pass: Pass, ctx: &mut Pending, x: &Prop) -> (r: Result<Prop, RewriteError>)
    ensures
        meets(rw_prop(pass, x@, old(ctx)@.issued()), old(ctx)@, final(ctx)@, viewed(r)),
    decreases x, 0nat,
{
    match x {
        Prop::Shorthand(name) => Ok(Prop::Shorthand(name.clone())),
        Prop::KeyValue { key, value } => {
            let key = rewrite_key(pass, ctx, key)?;
            let value = rewrite_expr(pass, ctx, value)?;
            Ok(Prop::KeyValue { key, value })
        },
        Prop::Other(o) => Ok(Prop::Other(rewrite_other(pass, ctx, o)?)),
    }
}

/// Runs the pass on a pattern.
pub fn rewrite_pat(pass: Pass, ctx: &mut Pending, x: &Pat) -> (r: Result<Pat, RewriteError>)
    ensures
        meets(rw_pat(pass, x@, old(ctx)@.issued()), old(ctx)@, final(ctx)@, viewed(r)),
    decreases x, 0nat,
{
    match x {
        Pat::Ident(name) => Ok(Pat::Ident(name.clone())),
        Pat::Object(props) => Ok(Pat::Object(rewrite_pat_props(pass, ctx, props)?)),
        Pat::Expr(e) => Ok(Pat::Expr(Box::new(rewrite_expr(pass, ctx, e)?))),
        Pat::Other(o) => Ok(Pat::Other(rewrite_other(pass, ctx, o)?)),
    }
}

/// Runs the pass on one property of an object pattern.
pub fn rewrite_pat_prop(pass: Pass, ctx: &mut Pending, x: &ObjectPatProp) -> (r: Result<
    ObjectPatProp,
    RewriteError,
>)
    ensures
        meets(rw_pat_prop(pass, x@, old(ctx)@.issued()), old(ctx)@, final(ctx)@, viewed(r)),
    decreases x, 0nat,
{
    match x {
        ObjectPatProp::Assign { name, default_value } => {
            let default_value = rewrite_opt_expr(pass, ctx, default_value)?;
            Ok(ObjectPatProp::Assign { name: name.clone(), default_value })
        },
        ObjectPatProp::KeyValue { key, value } => {
            let key = rewrite_key(pass, ctx, key)?;
            let value = rewrite_pat(pass, ctx, value)?;
            Ok(ObjectPatProp::KeyValue { key, value })
        },
        ObjectPatProp::Other(o) => Ok(ObjectPatProp::Other(rewrite_other(pass, ctx, o)?)),
    }
}

/// Runs the pass inside syntax that no rule interprets.
pub fn rewrite_other(pass: Pass, ctx: &mut Pending, o: &Other) -> (r: Result<Other, RewriteError>)
    ensures
        meets(rw_other(pass, o@, old(ctx)@.issued()), old(ctx)@, final(ctx)@, viewed(r)),
    decreases o, 0nat,
{
    let parts = rewrite_parts(pass, ctx, &o.parts)?;
    Ok(Other { tag: o.tag, parts })
}

/// Runs the pass on one sub-tree of uninterpreted syntax.
pub fn rewrite_part(pass: Pass, ctx: &mut Pending, x: &Part) -> (r: Result<Part, RewriteError>)
    ensures
        meets(rw_part(pass, x@, old(ctx)@.issued()), old(ctx)@, final(ctx)@, viewed(r)),
    decreases x, 0nat,
{
    match x {
        Part::Expr(e) => Ok(Part::Expr(rewrite_expr(pass, ctx, e)?)),
        Part::Pat(q) => Ok(Part::Pat(rewrite_pat(pass, ctx, q)?)),
        Part::Stmt(s) => Ok(Part::Stmt(rewrite_stmt(pass, ctx, s)?)),
        Part::Block(b) => Ok(Part::Block(rewrite_stmts(pass, ctx, b)?)),
    }
}

/// Runs the pass on a declarator: on its sub-trees first, then the rule.
/// `None` says that the declarator leaves its declaration.
pub fn rewrite_declarator(pass: Pass, ctx: &mut Pending, d: &VarDeclarator) -> (r: Result<
    Option<VarDeclarator>,
    RewriteError,
>)
    ensures
        meets(
            rw_declarator(pass, d@, old(ctx)@.issued()),
            old(ctx)@,
            final(ctx)@,
            viewed_declarator(r),
        ),
    decreases d, 0nat,
{
    let ghost c0 = ctx@;
    let ghost a = rw_pat(pass, d@.name, c0.issued());
    let ghost b = rw_opt_expr(pass, d@.init, c0.issued() + a.out.issued());
    let name = rewrite_pat(pass, ctx, &d.name)?;
    let init = rewrite_opt_expr(pass, ctx, &d.init)?;
    let ghost c2 = ctx@;
    let r = visit_declarator(pass, ctx, VarDeclarator { name, init });
    proof {
        let rule = on_declarator(pass, VarDeclaratorView { name: a.node, init: b.node });
        assert(c2 == c0.concat(a.out).concat(b.out));
        lemma_concat_assoc(c0, a.out, b.out);
        lemma_concat_assoc(c0, a.out.concat(b.out), rule.out);
    }
    r
}

/// Runs the pass on a statement. A statement that the pass takes away, and a
/// variable declaration without declarators, come back as the empty statement.
pub fn rewrite_stmt(pass: Pass, ctx: &mut Pending, s: &Stmt) -> (r: Result<Stmt, RewriteError>)
    ensures
        meets(rw_stmt(pass, s@, old(ctx)@.issued()), old(ctx)@, final(ctx)@, viewed(r)),
    decreases s, 0nat,
{
    match s {
        Stmt::Empty => Ok(Stmt::Empty),
        Stmt::Expr(e) => {
            let inner = rewrite_expr(pass, ctx, e)?;
            visit_expr_stmt(pass, ctx, inner)
        },
        Stmt::Var(d) => {
            let decls = rewrite_declarators(pass, ctx, &d.decls)?;
            if decls.len() == 0 {
                Ok(Stmt::Empty)
            } else {
                Ok(Stmt::Var(VarDecl { kind: d.kind, decls }))
            }
        },
        Stmt::Other(o) => Ok(Stmt::Other(rewrite_other(pass, ctx, o)?)),
    }
}

/// Runs the pass on one item of a module.
pub fn rewrite_item(pass: Pass, ctx: &mut Pending, item: &ModuleItem) -> (r: Result<
    ModuleItem,
    RewriteError,
>)
    ensures
        meets(rw_item(pass, item@, old(ctx)@.issued()), old(ctx)@, final(ctx)@, viewed(r)),
{
    match item {
        ModuleItem::Stmt(s) => Ok(ModuleItem::Stmt(rewrite_stmt(pass, ctx, s)?)),
        ModuleItem::Import(d) => Ok(ModuleItem::Import(copy_import(d))),
        ModuleItem::ExportNamed(x) => Ok(ModuleItem::ExportNamed(copy_named_export(x))),
        ModuleItem::ExportDefault(e) => Ok(ModuleItem::ExportDefault(rewrite_expr(pass, ctx, e)?)),
        ModuleItem::ExportConst { name, init } => {
            let init = rewrite_expr(pass, ctx, init)?;
            Ok(ModuleItem::ExportConst { name: name.clone(), init })
        },
        ModuleItem::Other(o) => Ok(ModuleItem::Other(rewrite_other(pass, ctx, o)?)),
    }
}

/// A copy of an import declaration.
pub fn copy_import(d: &ImportDecl) -> (r: ImportDecl)
    ensures
        r@ == d@,
{
    let mut specifiers: Vec<ImportSpecifier> = Vec::new();
    let mut i: usize = 0;
    while i < d.specifiers.len()
        invariant
            i <= d.specifiers.len(),
            specifiers.len() == i,
            forall|j: int| 0 <= j < i ==> specifiers[j]@ == d.specifiers[j]@,
        decreases d.specifiers.len() - i,
    {
        let one = match &d.specifiers[i] {
            ImportSpecifier::Named { local, imported } => ImportSpecifier::Named {
                local: local.clone(),
                imported: match imported {
                    Some(name) => Some(name.clone()),
                    None => None,
                },
            },
            ImportSpecifier::Namespace { local } => ImportSpecifier::Namespace {
                local: local.clone(),
            },
        };
        specifiers.push(one);
        i = i + 1;
    }
    let r = ImportDecl { specifiers, src: d.src.clone() };
    assert(r@ =~~= d@);
    r
}

/// A copy of a named export.
pub fn copy_named_export(x: &NamedExport) -> (r: NamedExport)
    ensures
        r@ == x@,
{
    let mut specifiers: Vec<ExportSpecifier> = Vec::new();
    let mut i: usize = 0;
    while i < x.specifiers.len()
        invariant
            i <= x.specifiers.len(),
            specifiers.len() == i,
            forall|j: int| 0 <= j < i ==> specifiers[j]@ == x.specifiers[j]@,
        decreases x.specifiers.len() - i,
    {
        let one = ExportSpecifier {
            orig: x.specifiers[i].orig.clone(),
            exported: match &x.specifiers[i].exported {
                Some(name) => Some(name.clone()),
                None => None,
            },
        };
        specifiers.push(one);
        i = i + 1;
    }
    let r = NamedExport { specifiers };
    assert(r@ =~~= x@);
    r
}

/// One more argument: what the pass makes of the first `i + 1` arguments is what
/// it makes of the first `i`, and then of the next one.
proof fn lemma_exprs_step(p: Pass, s: Seq<ExprView>, i: int, n: nat)
    requires
        0 <= i < s.len(),
    ensures
        ({
            let front = rw_exprs(p, s.take(i), n);
            let last = rw_expr(p, s[i], n + front.out.issued());
            rw_exprs(p, s.take(i + 1), n) == both(
                front,
                last,
                front.node.push(last.node),
            )
        }),
{
    assert(s.take(i + 1).drop_last() =~= s.take(i));
    assert(s.take(i + 1).last() == s[i]);
}

/// Runs the pass on the arguments of a call, in order.
#[verifier::rlimit(30)]
pub fn rewrite_exprs(pass: Pass, ctx: &mut Pending, v: &Vec<Expr>) -> (r: Result<
    Vec<Expr>,
    RewriteError,
>)
    ensures
        meets(
            rw_exprs(pass, exprs_view(v@), old(ctx)@.issued()),
            old(ctx)@,
            final(ctx)@,
            match r {
                Ok(x) => Some(exprs_view(x@)),
                Err(_) => None,
            },
        ),
    decreases v, 0nat,
{
    let ghost all = exprs_view(v@);
    let ghost start = ctx@;
    let mut out: Vec<Expr> = Vec::new();
    let mut i: usize = 0;
    assert(all.take(0) =~= Seq::<ExprView>::empty());
    while i < v.len()
        invariant
            i <= v.len(),
            all == exprs_view(v@),
            start == old(ctx)@,
            meets(
                rw_exprs(pass, all.take(i as int), start.issued()),
                start,
                ctx@,
                Some(exprs_view(out@)),
            ),
        decreases v.len() - i,
    {
        let ghost front = rw_exprs(pass, all.take(i as int), start.issued());
        let ghost last = rw_expr(pass, all[i as int], start.issued() + front.out.issued());
        let ghost seen = out@;
        let r = rewrite_expr(pass, ctx, &v[i]);
        proof {
            lemma_exprs_step(pass, all, i as int, start.issued());
            lemma_concat_assoc(start, front.out, last.out);
        }
        match r {
            Err(e) => {
                proof {
                    lemma_exprs_fatal_prefix(pass, all, start.issued(), i + 1);
                }
                return Err(e);
            },
            Ok(x) => {
                out.push(x);
                assert(exprs_view(out@) =~= exprs_view(seen).push(x@));
            },
        }
        i = i + 1;
    }
    assert(all.take(i as int) =~= all);
    Ok(out)
}

/// One more property: what the pass makes of the first `i + 1` properties is what
/// it makes of the first `i`, and then of the next one.
proof fn lemma_props_step(p: Pass, s: Seq<PropView>, i: int, n: nat)
    requires
        0 <= i < s.len(),
    ensures
        ({
            let front = rw_props(p, s.take(i), n);
            let last = rw_prop(p, s[i], n + front.out.issued());
            rw_props(p, s.take(i + 1), n) == both(
                front,
                last,
                front.node.push(last.node),
            )
        }),
{
    assert(s.take(i + 1).drop_last() =~= s.take(i));
    assert(s.take(i + 1).last() == s[i]);
}

/// Runs the pass on the properties of an object literal, in order.
#[verifier::rlimit(30)]
pub fn rewrite_props(pass: Pass, ctx: &mut Pending, v: &Vec<Prop>) -> (r: Result<
    Vec<Prop>,
    RewriteError,
>)
    ensures
        meets(
            rw_props(pass, props_view(v@), old(ctx)@.issued()),
            old(ctx)@,
            final(ctx)@,
            match r {
                Ok(x) => Some(props_view(x@)),
                Err(_) => None,
            },
        ),
    decreases v, 0nat,
{
    let ghost all = props_view(v@);
    let ghost start = ctx@;
    let mut out: Vec<Prop> = Vec::new();
    let mut i: usize = 0;
    assert(all.take(0) =~= Seq::<PropView>::empty());
    while i < v.len()
        invariant
            i <= v.len(),
            all == props_view(v@),
            start == old(ctx)@,
            meets(
                rw_props(pass, all.take(i as int), start.issued()),
                start,
                ctx@,
                Some(props_view(out@)),
            ),
        decreases v.len() - i,
    {
        let ghost front = rw_props(pass, all.take(i as int), start.issued());
        let ghost last = rw_prop(pass, all[i as int], start.issued() + front.out.issued());
        let ghost seen = out@;
        let r = rewrite_prop(pass, ctx, &v[i]);
        proof {
            lemma_props_step(pass, all, i as int, start.issued());
            lemma_concat_assoc(start, front.out, last.out);
        }
        match r {
            Err(e) => {
                proof {
                    lemma_props_fatal_prefix(pass, all, start.issued(), i + 1);
                }
                return Err(e);
            },
            Ok(x) => {
                out.push(x);
                assert(props_view(out@) =~= props_view(seen).push(x@));
            },
        }
        i = i + 1;
    }
    assert(all.take(i as int) =~= all);
    Ok(out)
}

/// One more property: what the pass makes of the first `i + 1` properties is what
/// it makes of the first `i`, and then of the next one.
proof fn lemma_pat_props_step(p: Pass, s: Seq<ObjectPatPropView>, i: int, n: nat)
    requires
        0 <= i < s.len(),
    ensures
        ({
            let front = rw_pat_props(p, s.take(i), n);
            let last = rw_pat_prop(p, s[i], n + front.out.issued());
            rw_pat_props(p, s.take(i + 1), n) == both(
                front,
                last,
                front.node.push(last.node),
            )
        }),
{
    assert(s.take(i + 1).drop_last() =~= s.take(i));
    assert(s.take(i + 1).last() == s[i]);
}

/// Runs the pass on the properties of an object pattern, in order.
#[verifier::rlimit(30)]
pub fn rewrite_pat_props(pass: Pass, ctx: &mut Pending, v: &Vec<ObjectPatProp>) -> (r: Result<
    Vec<ObjectPatProp>,
    RewriteError,
>)
    ensures
        meets(
            rw_pat_props(pass, pat_props_view(v@), old(ctx)@.issued()),
            old(ctx)@,
            final(ctx)@,
            match r {
                Ok(x) => Some(pat_props_view(x@)),
                Err(_) => None,
            },
        ),
    decreases v, 0nat,
{
    let ghost all = pat_props_view(v@);
    let ghost start = ctx@;
    let mut out: Vec<ObjectPatProp> = Vec::new();
    let mut i: usize = 0;
    assert(all.take(0) =~= Seq::<ObjectPatPropView>::empty());
    while i < v.len()
        invariant
            i <= v.len(),
            all == pat_props_view(v@),
            start == old(ctx)@,
            meets(
                rw_pat_props(pass, all.take(i as int), start.issued()),
                start,
                ctx@,
                Some(pat_props_view(out@)),
            ),
        decreases v.len() - i,
    {
        let ghost front = rw_pat_props(pass, all.take(i as int), start.issued());
        let ghost last = rw_pat_prop(pass, all[i as int], start.issued() + front.out.issued());
        let ghost seen = out@;
        let r = rewrite_pat_prop(pass, ctx, &v[i]);
        proof {
            lemma_pat_props_step(pass, all, i as int, start.issued());
            lemma_concat_assoc(start, front.out, last.out);
        }
        match r {
            Err(e) => {
                proof {
                    lemma_pat_props_fatal_prefix(pass, all, start.issued(), i + 1);
                }
                return Err(e);
            },
            Ok(x) => {
                out.push(x);
                assert(pat_props_view(out@) =~= pat_props_view(seen).push(x@));
            },
        }
        i = i + 1;
    }
    assert(all.take(i as int) =~= all);
    Ok(out)
}

/// One more part: what the pass makes of the first `i + 1` parts is what
/// it makes of the first `i`, and then of the next one.
proof fn lemma_parts_step(p: Pass, s: Seq<PartView>, i: int, n: nat)
    requires
        0 <= i < s.len(),
    ensures
        ({
            let front = rw_parts(p, s.take(i), n);
            let last = rw_part(p, s[i], n + front.out.issued());
            rw_parts(p, s.take(i + 1), n) == both(
                front,
                last,
                front.node.push(last.node),
            )
        }),
{
    assert(s.take(i + 1).drop_last() =~= s.take(i));
    assert(s.take(i + 1).last() == s[i]);
}

/// Runs the pass on the sub-trees of uninterpreted syntax, in order.
#[verifier::rlimit(30)]
pub fn rewrite_parts(pass: Pass, ctx: &mut Pending, v: &Vec<Part>) -> (r: Result<
    Vec<Part>,
    RewriteError,
>)
    ensures
        meets(
            rw_parts(pass, parts_view(v@), old(ctx)@.issued()),
            old(ctx)@,
            final(ctx)@,
            match r {
                Ok(x) => Some(parts_view(x@)),
                Err(_) => None,
            },
        ),
    decreases v, 0nat,
{
    let ghost all = parts_view(v@);
    let ghost start = ctx@;
    let mut out: Vec<Part> = Vec::new();
    let mut i: usize = 0;
    assert(all.take(0) =~= Seq::<PartView>::empty());
    while i < v.len()
        invariant
            i <= v.len(),
            all == parts_view(v@),
            start == old(ctx)@,
            meets(
                rw_parts(pass, all.take(i as int), start.issued()),
                start,
                ctx@,
                Some(parts_view(out@)),
            ),
        decreases v.len() - i,
    {
        let ghost front = rw_parts(pass, all.take(i as int), start.issued());
        let ghost last = rw_part(pass, all[i as int], start.issued() + front.out.issued());
        let ghost seen = out@;
        let r = rewrite_part(pass, ctx, &v[i]);
        proof {
            lemma_parts_step(pass, all, i as int, start.issued());
            lemma_concat_assoc(start, front.out, last.out);
        }
        match r {
            Err(e) => {
                proof {
                    lemma_parts_fatal_prefix(pass, all, start.issued(), i + 1);
                }
                return Err(e);
            },
            Ok(x) => {
                out.push(x);
                assert(parts_view(out@) =~= parts_view(seen).push(x@));
            },
        }
        i = i + 1;
    }
    assert(all.take(i as int) =~= all);
    Ok(out)
}

/// One more declarator: what the pass makes of the first `i + 1` declarators is what
/// it makes of the first `i`, and then of the next one.
proof fn lemma_declarators_step(p: Pass, s: Seq<VarDeclaratorView>, i: int, n: nat)
    requires
        0 <= i < s.len(),
    ensures
        ({
            let front = rw_declarators(p, s.take(i), n);
            let last = rw_declarator(p, s[i], n + front.out.issued());
            rw_declarators(p, s.take(i + 1), n) == both(
                front,
                last,
                match last.node {
                    Some(d) => front.node.push(d),
                    None => front.node,
                },
            )
        }),
{
    assert(s.take(i + 1).drop_last() =~= s.take(i));
    assert(s.take(i + 1).last() == s[i]);
}

/// Runs the pass on the declarators of a declaration, in order, and returns
/// those that stay.
#[verifier::rlimit(30)]
pub fn rewrite_declarators(pass: Pass, ctx: &mut Pending, v: &Vec<VarDeclarator>) -> (r: Result<
    Vec<VarDeclarator>,
    RewriteError,
>)
    ensures
        meets(
            rw_declarators(pass, declarators_view(v@), old(ctx)@.issued()),
            old(ctx)@,
            final(ctx)@,
            match r {
                Ok(x) => Some(declarators_view(x@)),
                Err(_) => None,
            },
        ),
    decreases v, 0nat,
{
    let ghost all = declarators_view(v@);
    let ghost start = ctx@;
    let mut out: Vec<VarDeclarator> = Vec::new();
    let mut i: usize = 0;
    assert(all.take(0) =~= Seq::<VarDeclaratorView>::empty());
    while i < v.len()
        invariant
            i <= v.len(),
            all == declarators_view(v@),
            start == old(ctx)@,
            meets(
                rw_declarators(pass, all.take(i as int), start.issued()),
                start,
                ctx@,
                Some(declarators_view(out@)),
            ),
        decreases v.len() - i,
    {
        let ghost front = rw_declarators(pass, all.take(i as int), start.issued());
        let ghost last = rw_declarator(pass, all[i as int], start.issued() + front.out.issued());
        let ghost seen = out@;
        let r = rewrite_declarator(pass, ctx, &v[i]);
        proof {
            lemma_declarators_step(pass, all, i as int, start.issued());
            lemma_concat_assoc(start, front.out, last.out);
        }
        match r {
            Err(e) => {
                proof {
                    lemma_declarators_fatal_prefix(pass, all, start.issued(), i + 1);
                }
                return Err(e);
            },
            Ok(Some(x)) => {
                out.push(x);
                assert(declarators_view(out@) =~= declarators_view(seen).push(x@));
            },
            Ok(None) => {},
        }
        i = i + 1;
    }
    assert(all.take(i as int) =~= all);
    Ok(out)
}

/// One more statement: what the pass makes of the first `i + 1` statements is what
/// it makes of the first `i`, and then of the next one.
proof fn lemma_stmts_step(p: Pass, s: Seq<StmtView>, i: int, n: nat)
    requires
        0 <= i < s.len(),
    ensures
        ({
            let front = rw_stmts(p, s.take(i), n);
            let last = rw_stmt(p, s[i], n + front.out.issued());
            rw_stmts(p, s.take(i + 1), n) == both(
                front,
                last,
                if last.node is Empty {
                    front.node
                } else {
                    front.node.push(last.node)
                },
            )
        }),
{
    assert(s.take(i + 1).drop_last() =~= s.take(i));
    assert(s.take(i + 1).last() == s[i]);
}

/// Runs the pass on a statement list, in order, and returns it without the
/// empty statements.
#[verifier::rlimit(30)]
pub fn rewrite_stmts(pass: Pass, ctx: &mut Pending, v: &Vec<Stmt>) -> (r: Result<
    Vec<Stmt>,
    RewriteError,
>)
    ensures
        meets(
            rw_stmts(pass, stmts_view(v@), old(ctx)@.issued()),
            old(ctx)@,
            final(ctx)@,
            match r {
                Ok(x) => Some(stmts_view(x@)),
                Err(_) => None,
            },
        ),
    decreases v, 0nat,
{
    let ghost all = stmts_view(v@);
    let ghost start = ctx@;
    let mut out: Vec<Stmt> = Vec::new();
    let mut i: usize = 0;
    assert(all.take(0) =~= Seq::<StmtView>::empty());
    while i < v.len()
        invariant
            i <= v.len(),
            all == stmts_view(v@),
            start == old(ctx)@,
            meets(
                rw_stmts(pass, all.take(i as int), start.issued()),
                start,
                ctx@,
                Some(stmts_view(out@)),
            ),
        decreases v.len() - i,
    {
        let ghost front = rw_stmts(pass, all.take(i as int), start.issued());
        let ghost last = rw_stmt(pass, all[i as int], start.issued() + front.out.issued());
        let ghost seen = out@;
        let r = rewrite_stmt(pass, ctx, &v[i]);
        proof {
            lemma_stmts_step(pass, all, i as int, start.issued());
            lemma_concat_assoc(start, front.out, last.out);
        }
        match r {
            Err(e) => {
                proof {
                    lemma_stmts_fatal_prefix(pass, all, start.issued(), i + 1);
                }
                return Err(e);
            },
            Ok(Stmt::Empty) => {},
            Ok(x) => {
                out.push(x);
                assert(stmts_view(out@) =~= stmts_view(seen).push(x@));
            },
        }
        i = i + 1;
    }
    assert(all.take(i as int) =~= all);
    Ok(out)
}

/// One more item: what the pass makes of the first `i + 1` items is what
/// it makes of the first `i`, and then of the next one.
proof fn lemma_items_step(p: Pass, s: Seq<ModuleItemView>, i: int, n: nat)
    requires
        0 <= i < s.len(),
    ensures
        ({
            let front = rw_items(p, s.take(i), n);
            let last = rw_item(p, s[i], n + front.out.issued());
            rw_items(p, s.take(i + 1), n) == both(
                front,
                last,
                if last.node == ModuleItemView::Stmt(StmtView::Empty) {
                    front.node
                } else {
                    front.node.push(last.node)
                },
            )
        }),
{
    assert(s.take(i + 1).drop_last() =~= s.take(i));
    assert(s.take(i + 1).last() == s[i]);
}

/// Runs the pass on the items of a module, in order, and returns them
/// without the empty statements.
#[verifier::rlimit(30)]
pub fn rewrite_items(pass: Pass, ctx: &mut Pending, v: &Vec<ModuleItem>) -> (r: Result<
    Vec<ModuleItem>,
    RewriteError,
>)
    ensures
        meets(
            rw_items(pass, items_view(v@), old(ctx)@.issued()),
            old(ctx)@,
            final(ctx)@,
            match r {
                Ok(x) => Some(items_view(x@)),
                Err(_) => None,
            },
        ),
{
    let ghost all = items_view(v@);
    let ghost start = ctx@;
    let mut out: Vec<ModuleItem> = Vec::new();
    let mut i: usize = 0;
    assert(all.take(0) =~= Seq::<ModuleItemView>::empty());
    while i < v.len()
        invariant
            i <= v.len(),
            all == items_view(v@),
            start == old(ctx)@,
            meets(
                rw_items(pass, all.take(i as int), start.issued()),
                start,
                ctx@,
                Some(items_view(out@)),
            ),
        decreases v.len() - i,
    {
        let ghost front = rw_items(pass, all.take(i as int), start.issued());
        let ghost last = rw_item(pass, all[i as int], start.issued() + front.out.issued());
        let ghost seen = out@;
        let r = rewrite_item(pass, ctx, &v[i]);
        proof {
            lemma_items_step(pass, all, i as int, start.issued());
            lemma_concat_assoc(start, front.out, last.out);
        }
        match r {
            Err(e) => {
                proof {
                    lemma_items_fatal_prefix(pass, all, start.issued(), i + 1);
                }
                return Err(e);
            },
            Ok(ModuleItem::Stmt(Stmt::Empty)) => {},
            Ok(x) => {
                out.push(x);
                assert(items_view(out@) =~= items_view(seen).push(x@));
            },
        }
        i = i + 1;
    }
    assert(all.take(i as int) =~= all);
    Ok(out)
}

/// A rewritten module, and what the caller is to be told about it.
#[derive(Debug, PartialEq, Eq)]
pub struct Output {
    pub module: Module,
    pub warnings: Vec<Warning>,
}

#[verifier::ext_equal]
pub struct OutputView {
    pub module: ModuleView,
    pub warnings: Seq<Warning>,
}

impl View for Output {
    type V = OutputView;

    open spec fn view(&self) -> OutputView {
        OutputView { module: self.module@, warnings: self.warnings@ }
    }
}

/// The view of what a pass, or a chain of passes, returned.
pub open spec fn outcome(r: Result<Output, RewriteError>) -> Result<OutputView, RewriteError> {
    match r {
        Ok(x) => Ok(x@),
        Err(e) => Err(e),
    }
}

/// Pending imports as items of a module.
pub open spec fn import_items(s: Seq<ImportDeclView>) -> Seq<ModuleItemView> {
    Seq::new(s.len(), |i: int| ModuleItemView::Import(s[i]))
}

/// `const <declarator>;` as an item of a module.
pub open spec fn hoisted_item(d: VarDeclaratorView) -> ModuleItemView {
    ModuleItemView::Stmt(StmtView::Var(VarDeclView { kind: VarDeclKind::Const, decls: seq![d] }))
}

/// Pending constants as items of a module, one declaration each.
pub open spec fn hoisted_items(s: Seq<VarDeclaratorView>) -> Seq<ModuleItemView> {
    Seq::new(s.len(), |i: int| hoisted_item(s[i]))
}

/// The module body holds an `export default` at its top level.
pub open spec fn holds_default(body: Seq<ModuleItemView>) -> bool {
    exists|i: int| 0 <= i < body.len() && (#[trigger] body[i]) is ExportDefault
}

/// The default export that a pass adds to a module body: the one that it has
/// found, unless the body holds a default export already. A module has one
/// default export, and one that is a declaration already stands after every
/// assignment that an earlier pass has turned into it.
pub open spec fn added_default(
    body: Seq<ModuleItemView>,
    found: DefaultFindingView,
) -> Option<DefaultExportView> {
    match found {
        DefaultFindingView::Found(d) => if holds_default(body) {
            None
        } else {
            Some(d)
        },
        _ => None,
    }
}

/// The items that a default export stands for: none, or
/// `export default <value>;`, or `export { name };` and
/// `export default name;`.
pub open spec fn default_items(d: Option<DefaultExportView>) -> Seq<ModuleItemView> {
    match d {
        None => Seq::empty(),
        Some(DefaultExportView::Value(e)) => seq![ModuleItemView::ExportDefault(e)],
        Some(DefaultExportView::Named(name)) => seq![
            single_export(name, None),
            ModuleItemView::ExportDefault(ExprView::Ident(name)),
        ],
    }
}

/// What a default export gives to warn about: that it is opaque, if it is a
/// value of which no named export could be made.
pub open spec fn default_warnings(d: Option<DefaultExportView>) -> Seq<Warning> {
    match d {
        Some(DefaultExportView::Value(_)) => seq![Warning::OpaqueDefaultExport],
        _ => Seq::empty(),
    }
}

/// The module body after a pass has put its pending declarations into it:
/// the imports at the head, then the rewritten body, then the hoisted
/// constants, then the exports, each group in the order in which the
/// traversal recorded it; and at the very end the one default export, if the
/// pass adds one.
pub open spec fn flush(body: Seq<ModuleItemView>, out: PendingView) -> Seq<ModuleItemView> {
    import_items(out.imports) + body + hoisted_items(out.decls) + out.exports + default_items(
        added_default(body, out.default_export),
    )
}

/// What pass `p` makes of the module `m`.
#[verifier::opaque]
pub open spec fn apply(p: Pass, m: ModuleView) -> Result<OutputView, RewriteError> {
    let r = rw_items(p, m.body, 0);
    if r.fatal {
        Err(RewriteError::DynamicRequire)
    } else {
        Ok(
            OutputView {
                module: ModuleView { body: flush(r.node, r.out) },
                warnings: r.out.warnings + default_warnings(
                    added_default(r.node, r.out.default_export),
                ),
            },
        )
    }
}

/// Whether a module body holds an `export default` at its top level.
pub fn has_default_export(body: &Vec<ModuleItem>) -> (b: bool)
    ensures
        b == holds_default(items_view(body@)),
{
    let mut i: usize = 0;
    while i < body.len()
        invariant
            i <= body.len(),
            forall|j: int| 0 <= j < i ==> !((#[trigger] items_view(body@)[j]) is ExportDefault),
        decreases body.len() - i,
    {
        let found = match &body[i] {
            ModuleItem::ExportDefault(_) => true,
            _ => false,
        };
        if found {
            assert(items_view(body@)[i as int] is ExportDefault);
            return true;
        }
        i = i + 1;
    }
    false
}

/// Puts the pending declarations of a finished traversal into the module
/// body.
#[verifier::rlimit(30)]
pub fn flush_pending(body: Vec<ModuleItem>, ctx: Pending) -> (r: Output)
    ensures
        r@ == (OutputView {
            module: ModuleView { body: flush(items_view(body@), ctx@) },
            warnings: ctx@.warnings + default_warnings(
                added_default(items_view(body@), ctx@.default_export),
            ),
        }),
{
    let Pending { imports, decls, exports, default_export, warnings } = ctx;
    let has_default = has_default_export(&body);
    let mut body = body;
    let mut exports = exports;
    let mut warnings = warnings;
    let ghost old_body = items_view(body@);
    let ghost pending = ctx@;
    let mut all: Vec<ModuleItem> = Vec::new();
    for d in it: imports
        invariant
            it.seq() == imports@,
            all.len() == it.index(),
            forall|j: int| 0 <= j < all.len() ==> all[j]@ == ModuleItemView::Import(imports@[j]@),
    {
        all.push(ModuleItem::Import(d));
    }
    assert(items_view(all@) =~= import_items(pending.imports));
    all.append(&mut body);
    assert(items_view(all@) =~= import_items(pending.imports) + old_body);
    let ghost head = all@;
    for d in it: decls
        invariant
            it.seq() == decls@,
            all.len() == head.len() + it.index(),
            forall|j: int| 0 <= j < head.len() ==> all[j] == head[j],
            forall|k: int|
                head.len() <= k < all.len() ==> (#[trigger] all[k])@ == hoisted_item(
                    decls@[k - head.len()]@,
                ),
    {
        let mut one: Vec<VarDeclarator> = Vec::new();
        one.push(d);
        let item = ModuleItem::Stmt(Stmt::Var(VarDecl { kind: VarDeclKind::Const, decls: one }));
        assert(declarators_view(one@) =~= seq![d@]);
        all.push(item);
    }
    proof {
        let want = import_items(pending.imports) + old_body + hoisted_items(pending.decls);
        assert(items_view(head) == import_items(pending.imports) + old_body);
        assert(items_view(all@).len() == want.len());
        assert forall|k: int| 0 <= k < want.len() implies items_view(all@)[k] == want[k] by {
            if k < head.len() {
                assert(all@[k] == head[k]);
                assert(items_view(head)[k] == head[k]@);
            } else {
                assert(all@[k]@ == hoisted_item(decls@[k - head.len()]@));
            }
        }
        assert(items_view(all@) =~= want);
    }
    all.append(&mut exports);
    let ghost before = items_view(all@);
    assert(before =~= import_items(pending.imports) + old_body + hoisted_items(pending.decls)
        + pending.exports);
    let ghost added = added_default(old_body, pending.default_export);
    if !has_default {
        match default_export {
            DefaultFinding::Found(DefaultExport::Value(value)) => {
                all.push(ModuleItem::ExportDefault(value));
                warnings.push(Warning::OpaqueDefaultExport);
            },
            DefaultFinding::Found(DefaultExport::Named(name)) => {
                all.push(export_one(name.clone(), None));
                all.push(ModuleItem::ExportDefault(Expr::Ident(name)));
            },
            _ => {},
        }
    }
    assert(items_view(all@) =~= before + default_items(added));
    assert(warnings@ =~= pending.warnings + default_warnings(added));
    Output { module: Module { body: all }, warnings }
}

/// Runs one pass over a module: one traversal, then the flush of what the
/// traversal recorded.
pub fn visit_mut_module(pass: Pass, module: &Module) -> (r: Result<Output, RewriteError>)
    ensures
        outcome(r) == apply(pass, module@),
        r matches Ok(out) ==> tidy_module(out@.module),
{
    proof {
        reveal(apply);
        law_pass_output_is_tidy(pass, module@);
    }
    let mut ctx = Pending::new();
    match rewrite_items(pass, &mut ctx, &module.body) {
        Ok(body) => {
            proof {
                lemma_concat_empty(ctx@);
            }
            Ok(flush_pending(body, ctx))
        },
        Err(e) => Err(e),
    }
}

impl TransformRequireStatementVistor {
    /// Runs this pass over a module.
    pub fn visit_mut_module(&self, module: &Module) -> (r: Result<Output, RewriteError>)
        ensures
            outcome(r) == apply(Pass::RequireStatement, module@),
            r matches Ok(out) ==> tidy_module(out@.module),
    {
        visit_mut_module(Pass::RequireStatement, module)
    }
}

impl TransformRequireIdentVisitor {
    /// Runs this pass over a module.
    pub fn visit_mut_module(&self, module: &Module) -> (r: Result<Output, RewriteError>)
        ensures
            outcome(r) == apply(Pass::RequireIdent, module@),
            r matches Ok(out) ==> tidy_module(out@.module),
    {
        visit_mut_module(Pass::RequireIdent, module)
    }
}

impl TransformPureDestructuredRequireVisitor {
    /// Runs this pass over a module.
    pub fn visit_mut_module(&self, module: &Module) -> (r: Result<Output, RewriteError>)
        ensures
            outcome(r) == apply(Pass::PureDestructuredRequire, module@),
            r matches Ok(out) ==> tidy_module(out@.module),
    {
        visit_mut_module(Pass::PureDestructuredRequire, module)
    }
}

impl TransformRequireFallback {
    /// Runs this pass over a module.
    pub fn visit_mut_module(&self, module: &Module) -> (r: Result<Output, RewriteError>)
        ensures
            outcome(r) == apply(Pass::RequireFallback, module@),
            r matches Ok(out) ==> tidy_module(out@.module),
    {
        visit_mut_module(Pass::RequireFallback, module)
    }
}

impl TransformModuleExportsIdentVisitor {
    /// Runs this pass over a module.
    pub fn visit_mut_module(&self, module: &Module) -> (r: Result<Output, RewriteError>)
        ensures
            outcome(r) == apply(Pass::ModuleExportsIdent, module@),
            r matches Ok(out) ==> tidy_module(out@.module),
    {
        visit_mut_module(Pass::ModuleExportsIdent, module)
    }
}

impl TransformModuleExportsNamedExprVisitor {
    /// Runs this pass over a module.
    pub fn visit_mut_module(&self, module: &Module) -> (r: Result<Output, RewriteError>)
        ensures
            outcome(r) == apply(Pass::ModuleExportsNamedExpr, module@),
            r matches Ok(out) ==> tidy_module(out@.module),
    {
        visit_mut_module(Pass::ModuleExportsNamedExpr, module)
    }
}

impl TransformExportDefaultObject {
    /// Runs this pass over a module.
    pub fn visit_mut_module(&self, module: &Module) -> (r: Result<Output, RewriteError>)
        ensures
            outcome(r) == apply(Pass::ExportDefaultObject, module@),
            r matches Ok(out) ==> tidy_module(out@.module),
    {
        visit_mut_module(Pass::ExportDefaultObject, module)
    }
}

impl TransformModuleDefaultExport {
    /// Runs this pass over a module.
    pub fn visit_mut_module(&self, module: &Module) -> (r: Result<Output, RewriteError>)
        ensures
            outcome(r) == apply(Pass::ModuleDefaultExport, module@),
            r matches Ok(out) ==> tidy_module(out@.module),
    {
        visit_mut_module(Pass::ModuleDefaultExport, module)
    }
}

} // verus!
