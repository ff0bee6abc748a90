//! When the cascade fails: exactly on the modules that hold a `require` whose
//! only argument is not a string literal.
use crate::ast::{
    AssignExprView, CallExprView, ExprView, ImportDeclView, KeyView, MemberExprView, ModuleItemView,
    ModuleView, ObjectPatPropView, OtherView, PartView, PatView, PropView, StmtView,
    VarDeclaratorView,
};
use crate::frame::{is_import_pass, law_exports_end_well, lemma_frame_items};
use crate::names::synthetic_name;
use crate::transform_cjs::{cascade, followed_by, imports_of, untouched};
use crate::traverse::{
    apply, flush, hoisted_items, import_items, on_declarator, on_expr, on_expr_stmt, rw_assign,
    rw_call, rw_children, rw_declarator, rw_declarators, rw_expr, rw_exprs, rw_item, rw_items,
    rw_key, rw_member, rw_opt_expr, rw_other, rw_part, rw_parts, rw_pat, rw_pat_prop, rw_pat_props,
    rw_prop, rw_props, rw_stmt, rw_stmts, OutputView,
};
use crate::utils::{require_call, RewriteError};
use crate::visitors::{named_import, pure_destructuring, Pass, Rewrite};
use vstd::prelude::*;

verus! {

/// `require(<arg>)`, where the only argument is not a string literal.
pub open spec fn is_dynamic_require(e: ExprView) -> bool {
    require_call(e) is Dynamic
}

/// The expression is, or holds, a dynamic `require`.
pub open spec fn dynamic_expr(e: ExprView) -> bool
    decreases e,
{
    match e {
        ExprView::Ident(_) => false,
        ExprView::Str(_) => false,
        ExprView::Call(c) => is_dynamic_require(e) || dynamic_call(c),
        ExprView::Member(m) => dynamic_member(m),
        ExprView::Assign(a) => dynamic_assign(a),
        ExprView::Object(props) => dynamic_props(props),
        ExprView::Other(o) => dynamic_other(o),
    }
}

/// The callee or an argument of the call holds a dynamic `require`.
pub open spec fn dynamic_call(c: CallExprView) -> bool
    decreases c,
{
    dynamic_expr(*c.callee) || dynamic_exprs(c.args)
}

/// A dynamic `require` in the sub-trees of a member access.
pub open spec fn dynamic_member(m: MemberExprView) -> bool
    decreases m,
{
    dynamic_expr(*m.obj) || dynamic_key(m.prop)
}

/// A dynamic `require` in the sub-trees of an assignment.
pub open spec fn dynamic_assign(a: AssignExprView) -> bool
    decreases a,
{
    dynamic_pat(a.left) || dynamic_expr(*a.right)
}

/// A dynamic `require` in the arguments of a call.
pub open spec fn dynamic_exprs(s: Seq<ExprView>) -> bool
    decreases s,
{
    if s.len() == 0 {
        false
    } else {
        dynamic_exprs(s.drop_last()) || dynamic_expr(s.last())
    }
}

/// A dynamic `require` in an expression that may be absent.
pub open spec fn dynamic_opt_expr(e: Option<ExprView>) -> bool
    decreases e,
{
    match e {
        Some(x) => dynamic_expr(x),
        None => false,
    }
}

/// A dynamic `require` in a key.
pub open spec fn dynamic_key(k: KeyView) -> bool
    decreases k,
{
    match k {
        KeyView::Ident(_) => false,
        KeyView::Str(_) => false,
        KeyView::Computed(e) => dynamic_expr(*e),
        KeyView::Other(o) => dynamic_other(o),
    }
}

/// A dynamic `require` in a property of an object literal.
pub open spec fn dynamic_prop(x: PropView) -> bool
    decreases x,
{
    match x {
        PropView::Shorthand(_) => false,
        PropView::KeyValue { key, value } => dynamic_key(key) || dynamic_expr(value),
        PropView::Other(o) => dynamic_other(o),
    }
}

/// A dynamic `require` in the properties of an object literal.
pub open spec fn dynamic_props(s: Seq<PropView>) -> bool
    decreases s,
{
    if s.len() == 0 {
        false
    } else {
        dynamic_props(s.drop_last()) || dynamic_prop(s.last())
    }
}

/// A dynamic `require` in a pattern.
pub open spec fn dynamic_pat(x: PatView) -> bool
    decreases x,
{
    match x {
        PatView::Ident(_) => false,
        PatView::Object(props) => dynamic_pat_props(props),
        PatView::Expr(e) => dynamic_expr(*e),
        PatView::Other(o) => dynamic_other(o),
    }
}

/// A dynamic `require` in a property of an object pattern.
pub open spec fn dynamic_pat_prop(x: ObjectPatPropView) -> bool
    decreases x,
{
    match x {
        ObjectPatPropView::Assign { name, default_value } => dynamic_opt_expr(default_value),
        ObjectPatPropView::KeyValue { key, value } => dynamic_key(key) || dynamic_pat(value),
        ObjectPatPropView::Other(o) => dynamic_other(o),
    }
}

/// A dynamic `require` in the properties of an object pattern.
pub open spec fn dynamic_pat_props(s: Seq<ObjectPatPropView>) -> bool
    decreases s,
{
    if s.len() == 0 {
        false
    } else {
        dynamic_pat_props(s.drop_last()) || dynamic_pat_prop(s.last())
    }
}

/// A dynamic `require` in uninterpreted syntax.
pub open spec fn dynamic_other(o: OtherView) -> bool
    decreases o,
{
    dynamic_parts(o.parts)
}

/// A dynamic `require` in a sub-tree of uninterpreted syntax.
pub open spec fn dynamic_part(x: PartView) -> bool
    decreases x,
{
    match x {
        PartView::Expr(e) => dynamic_expr(e),
        PartView::Pat(q) => dynamic_pat(q),
        PartView::Stmt(s) => dynamic_stmt(s),
        PartView::Block(b) => dynamic_stmts(b),
    }
}

/// A dynamic `require` in the sub-trees of uninterpreted syntax.
pub open spec fn dynamic_parts(s: Seq<PartView>) -> bool
    decreases s,
{
    if s.len() == 0 {
        false
    } else {
        dynamic_parts(s.drop_last()) || dynamic_part(s.last())
    }
}

/// A dynamic `require` in a declarator.
pub open spec fn dynamic_declarator(d: VarDeclaratorView) -> bool
    decreases d,
{
    dynamic_pat(d.name) || dynamic_opt_expr(d.init)
}

/// A dynamic `require` in the declarators of a declaration.
pub open spec fn dynamic_declarators(s: Seq<VarDeclaratorView>) -> bool
    decreases s,
{
    if s.len() == 0 {
        false
    } else {
        dynamic_declarators(s.drop_last()) || dynamic_declarator(s.last())
    }
}

/// A dynamic `require` in a statement.
pub open spec fn dynamic_stmt(s: StmtView) -> bool
    decreases s,
{
    match s {
        StmtView::Empty => false,
        StmtView::Expr(e) => dynamic_expr(e),
        StmtView::Var(d) => dynamic_declarators(d.decls),
        StmtView::Other(o) => dynamic_other(o),
    }
}

/// A dynamic `require` in a statement list.
pub open spec fn dynamic_stmts(s: Seq<StmtView>) -> bool
    decreases s,
{
    if s.len() == 0 {
        false
    } else {
        dynamic_stmts(s.drop_last()) || dynamic_stmt(s.last())
    }
}

/// A dynamic `require` in an item of a module.
pub open spec fn dynamic_item(item: ModuleItemView) -> bool {
    match item {
        ModuleItemView::Stmt(s) => dynamic_stmt(s),
        ModuleItemView::Import(_) => false,
        ModuleItemView::ExportNamed(_) => false,
        ModuleItemView::ExportDefault(e) => dynamic_expr(e),
        ModuleItemView::ExportConst { name, init } => dynamic_expr(init),
        ModuleItemView::Other(o) => dynamic_other(o),
    }
}

/// A dynamic `require` in the items of a module.
pub open spec fn dynamic_items(s: Seq<ModuleItemView>) -> bool
    decreases s.len(),
{
    if s.len() == 0 {
        false
    } else {
        dynamic_items(s.drop_last()) || dynamic_item(s.last())
    }
}

/// The module holds, at any depth, a call `require(<arg>)` whose only
/// argument is not a string literal.
pub open spec fn holds_dynamic_require(m: ModuleView) -> bool {
    dynamic_items(m.body)
}

/// A synthetic name is not `require`.
pub proof fn lemma_synthetic_is_not_require(n: nat)
    ensures
        synthetic_name("_mod"@, n) != "require"@,
{
    reveal_strlit("_mod");
    reveal_strlit("require");
    assert(synthetic_name("_mod"@, n)[0] == '_');
    assert("require"@[0] == 'r');
}

/// A pass changes neither whether an expression is a string literal nor
/// whether it is the identifier `require`.
pub proof fn lemma_shape_kept(p: Pass, e: ExprView, n: nat)
    ensures
        rw_expr(p, e, n).node is Str <==> e is Str,
        e is Str ==> rw_expr(p, e, n).node == e,
        rw_expr(p, e, n).node == ExprView::Ident("require"@) <==> e == ExprView::Ident(
            "require"@,
        ),
        rw_children(p, e, n).node is Call <==> e is Call,
{
    reveal(on_expr);
    let inner = rw_children(p, e, n);
    lemma_synthetic_is_not_require(n + inner.out.issued() + 1);
}

/// Rewriting the arguments of a call keeps their number, and a lone argument
/// is rewritten as an expression of its own.
pub proof fn lemma_args_kept(p: Pass, s: Seq<ExprView>, n: nat)
    ensures
        rw_exprs(p, s, n).node.len() == s.len(),
        s.len() == 1 ==> rw_exprs(p, s, n).node[0] == rw_expr(p, s[0], n).node,
    decreases s.len(),
{
    if s.len() > 0 {
        lemma_args_kept(p, s.drop_last(), n);
        if s.len() == 1 {
            reveal_with_fuel(rw_exprs, 2);
            assert(s.drop_last() =~= Seq::<ExprView>::empty());
        }
    }
}

/// Rewriting the sub-trees of a call changes nothing of what the call is
/// with respect to `require`.
pub proof fn lemma_require_kept(p: Pass, c: CallExprView, n: nat)
    ensures
        require_call(ExprView::Call(rw_call(p, c, n).node)) == require_call(ExprView::Call(c)),
{
    let callee = rw_expr(p, *c.callee, n);
    lemma_shape_kept(p, *c.callee, n);
    lemma_args_kept(p, c.args, n + callee.out.issued());
    if c.args.len() == 1 {
        lemma_shape_kept(p, c.args[0], n + callee.out.issued());
    }
}

/// How an import pass goes with the dynamic `require`s of a node: `before`
/// says whether the node holds one, `after` whether the rewritten node does.
/// A pass fails only where there is one; the fallback pass fails wherever
/// there is one; and an earlier pass that does not fail neither takes one
/// away nor brings one in.
pub open spec fn tracks<T>(p: Pass, r: Rewrite<T>, before: bool, after: bool) -> bool {
    &&& r.fatal ==> before
    &&& p == Pass::RequireFallback && before ==> r.fatal
    &&& p != Pass::RequireFallback && !r.fatal ==> after == before
}

/// One more of the arguments: it holds a dynamic `require` or those before it do.
proof fn lemma_dynamic_exprs_push(s: Seq<ExprView>, x: ExprView)
    ensures
        dynamic_exprs(s.push(x)) == (dynamic_exprs(s) || dynamic_expr(x)),
{
    assert(s.push(x).drop_last() =~= s);
}

/// One more of the properties: it holds a dynamic `require` or those before it do.
proof fn lemma_dynamic_props_push(s: Seq<PropView>, x: PropView)
    ensures
        dynamic_props(s.push(x)) == (dynamic_props(s) || dynamic_prop(x)),
{
    assert(s.push(x).drop_last() =~= s);
}

/// One more of the pattern properties: it holds a dynamic `require` or those before it do.
proof fn lemma_dynamic_pat_props_push(s: Seq<ObjectPatPropView>, x: ObjectPatPropView)
    ensures
        dynamic_pat_props(s.push(x)) == (dynamic_pat_props(s) || dynamic_pat_prop(x)),
{
    assert(s.push(x).drop_last() =~= s);
}

/// One more of the parts: it holds a dynamic `require` or those before it do.
proof fn lemma_dynamic_parts_push(s: Seq<PartView>, x: PartView)
    ensures
        dynamic_parts(s.push(x)) == (dynamic_parts(s) || dynamic_part(x)),
{
    assert(s.push(x).drop_last() =~= s);
}

/// One more of the declarators: it holds a dynamic `require` or those before it do.
proof fn lemma_dynamic_declarators_push(s: Seq<VarDeclaratorView>, x: VarDeclaratorView)
    ensures
        dynamic_declarators(s.push(x)) == (dynamic_declarators(s) || dynamic_declarator(x)),
{
    assert(s.push(x).drop_last() =~= s);
}

/// One more of the statements: it holds a dynamic `require` or those before it do.
proof fn lemma_dynamic_stmts_push(s: Seq<StmtView>, x: StmtView)
    ensures
        dynamic_stmts(s.push(x)) == (dynamic_stmts(s) || dynamic_stmt(x)),
{
    assert(s.push(x).drop_last() =~= s);
}

/// One more of the items: it holds a dynamic `require` or those before it do.
proof fn lemma_dynamic_items_push(s: Seq<ModuleItemView>, x: ModuleItemView)
    ensures
        dynamic_items(s.push(x)) == (dynamic_items(s) || dynamic_item(x)),
{
    assert(s.push(x).drop_last() =~= s);
}

/// A pattern that stands for named imports holds no expression at all.
proof fn lemma_pure_destructuring_is_static(props: Seq<ObjectPatPropView>)
    requires
        pure_destructuring(props),
    ensures
        !dynamic_pat_props(props),
    decreases props.len(),
{
    if props.len() > 0 {
        assert forall|i: int| 0 <= i < props.drop_last().len() implies (#[trigger] named_import(
            props.drop_last()[i],
        )) is Some by {
            assert(props.drop_last()[i] == props[i]);
        }
        lemma_pure_destructuring_is_static(props.drop_last());
        assert(named_import(props[props.len() - 1]) is Some);
        reveal_with_fuel(dynamic_pat, 2);
        reveal_with_fuel(dynamic_key, 2);
        assert(!dynamic_pat_prop(props.last()));
    }
}

/// A `require` of a string literal holds no dynamic `require`.
proof fn lemma_literal_require_is_static(e: ExprView)
    requires
        require_call(e) is Literal,
    ensures
        !dynamic_expr(e),
{
    let c = e->Call_0;
    reveal_with_fuel(dynamic_exprs, 2);
    reveal_with_fuel(dynamic_expr, 2);
    assert(c.args.drop_last() =~= Seq::<ExprView>::empty());
    assert(!dynamic_expr(*c.callee));
    assert(!dynamic_expr(c.args.last()));
    assert(!dynamic_exprs(c.args));
}

/// How pass `p` on the sub-trees of a call goes with the dynamic `require`s in it.
pub proof fn lemma_tracks_call(p: Pass, x: CallExprView, n: nat)
    requires
        is_import_pass(p),
    ensures
        tracks(p, rw_call(p, x, n), dynamic_call(x), dynamic_call(rw_call(p, x, n).node)),
    decreases x, 0nat,
{
    lemma_tracks_expr(p, *x.callee, n);
    lemma_tracks_exprs(p, x.args, n + rw_expr(p, *x.callee, n).out.issued());
}

/// How pass `p` on the sub-trees of a member access goes with the dynamic `require`s in it.
pub proof fn lemma_tracks_member(p: Pass, x: MemberExprView, n: nat)
    requires
        is_import_pass(p),
    ensures
        tracks(p, rw_member(p, x, n), dynamic_member(x), dynamic_member(rw_member(p, x, n).node)),
    decreases x, 0nat,
{
    lemma_tracks_expr(p, *x.obj, n);
    lemma_tracks_key(p, x.prop, n + rw_expr(p, *x.obj, n).out.issued());
}

/// How pass `p` on the sub-trees of an assignment goes with the dynamic `require`s in it.
pub proof fn lemma_tracks_assign(p: Pass, x: AssignExprView, n: nat)
    requires
        is_import_pass(p),
    ensures
        tracks(p, rw_assign(p, x, n), dynamic_assign(x), dynamic_assign(rw_assign(p, x, n).node)),
    decreases x, 0nat,
{
    lemma_tracks_pat(p, x.left, n);
    lemma_tracks_expr(p, *x.right, n + rw_pat(p, x.left, n).out.issued());
}

/// The dynamic `require`s below the top of an expression.
pub open spec fn dynamic_below(e: ExprView) -> bool {
    match e {
        ExprView::Call(c) => dynamic_call(c),
        _ => dynamic_expr(e),
    }
}

/// How pass `p` on the sub-trees of an expression goes with the dynamic `require`s in it.
pub proof fn lemma_tracks_children(p: Pass, x: ExprView, n: nat)
    requires
        is_import_pass(p),
    ensures
        tracks(
            p,
            rw_children(p, x, n),
            dynamic_below(x),
            dynamic_below(rw_children(p, x, n).node),
        ),
    decreases x, 0nat,
{
    match x {
        ExprView::Ident(_) => {},
        ExprView::Str(_) => {},
        ExprView::Call(c) => {
            lemma_tracks_call(p, c, n);
        },
        ExprView::Member(m) => {
            lemma_tracks_member(p, m, n);
        },
        ExprView::Assign(a) => {
            lemma_tracks_assign(p, a, n);
        },
        ExprView::Object(props) => {
            lemma_tracks_props(p, props, n);
        },
        ExprView::Other(o) => {
            lemma_tracks_other(p, o, n);
        },
    }
}

/// How pass `p` on an expression goes with the dynamic `require`s in it.
pub proof fn lemma_tracks_expr(p: Pass, x: ExprView, n: nat)
    requires
        is_import_pass(p),
    ensures
        tracks(p, rw_expr(p, x, n), dynamic_expr(x), dynamic_expr(rw_expr(p, x, n).node)),
    decreases x, 1nat,
{
    lemma_tracks_children(p, x, n);
    reveal(on_expr);
    match x {
        ExprView::Call(c) => {
            lemma_require_kept(p, c, n);
        },
        _ => {},
    }
}

/// How pass `p` on the arguments of a call goes with the dynamic `require`s in it.
pub proof fn lemma_tracks_exprs(p: Pass, x: Seq<ExprView>, n: nat)
    requires
        is_import_pass(p),
    ensures
        tracks(p, rw_exprs(p, x, n), dynamic_exprs(x), dynamic_exprs(rw_exprs(p, x, n).node)),
    decreases x, 0nat,
{
    if x.len() > 0 {
        let front = rw_exprs(p, x.drop_last(), n);
        let last = rw_expr(p, x.last(), n + front.out.issued());
        lemma_tracks_exprs(p, x.drop_last(), n);
        lemma_tracks_expr(p, x.last(), n + front.out.issued());
        lemma_dynamic_exprs_push(front.node, last.node);
    }
}

/// How pass `p` on an expression that may be absent goes with the dynamic `require`s in it.
pub proof fn lemma_tracks_opt_expr(p: Pass, x: Option<ExprView>, n: nat)
    requires
        is_import_pass(p),
    ensures
        tracks(
            p,
            rw_opt_expr(p, x, n),
            dynamic_opt_expr(x),
            dynamic_opt_expr(rw_opt_expr(p, x, n).node),
        ),
    decreases x, 0nat,
{
    match x {
        Some(e) => {
            lemma_tracks_expr(p, e, n);
        },
        None => {},
    }
}

/// How pass `p` on a key goes with the dynamic `require`s in it.
pub proof fn lemma_tracks_key(p: Pass, x: KeyView, n: nat)
    requires
        is_import_pass(p),
    ensures
        tracks(p, rw_key(p, x, n), dynamic_key(x), dynamic_key(rw_key(p, x, n).node)),
    decreases x, 0nat,
{
    match x {
        KeyView::Ident(_) => {},
        KeyView::Str(_) => {},
        KeyView::Computed(e) => {
            lemma_tracks_expr(p, *e, n);
        },
        KeyView::Other(o) => {
            lemma_tracks_other(p, o, n);
        },
    }
}

/// How pass `p` on a property of an object literal goes with the dynamic `require`s in it.
pub proof fn lemma_tracks_prop(p: Pass, x: PropView, n: nat)
    requires
        is_import_pass(p),
    ensures
        tracks(p, rw_prop(p, x, n), dynamic_prop(x), dynamic_prop(rw_prop(p, x, n).node)),
    decreases x, 0nat,
{
    match x {
        PropView::Shorthand(_) => {},
        PropView::KeyValue { key, value } => {
            lemma_tracks_key(p, key, n);
            lemma_tracks_expr(p, value, n + rw_key(p, key, n).out.issued());
        },
        PropView::Other(o) => {
            lemma_tracks_other(p, o, n);
        },
    }
}

/// How pass `p` on the properties of an object literal goes with the dynamic `require`s in it.
pub proof fn lemma_tracks_props(p: Pass, x: Seq<PropView>, n: nat)
    requires
        is_import_pass(p),
    ensures
        tracks(p, rw_props(p, x, n), dynamic_props(x), dynamic_props(rw_props(p, x, n).node)),
    decreases x, 0nat,
{
    if x.len() > 0 {
        let front = rw_props(p, x.drop_last(), n);
        let last = rw_prop(p, x.last(), n + front.out.issued());
        lemma_tracks_props(p, x.drop_last(), n);
        lemma_tracks_prop(p, x.last(), n + front.out.issued());
        lemma_dynamic_props_push(front.node, last.node);
    }
}

/// How pass `p` on a pattern goes with the dynamic `require`s in it.
pub proof fn lemma_tracks_pat(p: Pass, x: PatView, n: nat)
    requires
        is_import_pass(p),
    ensures
        tracks(p, rw_pat(p, x, n), dynamic_pat(x), dynamic_pat(rw_pat(p, x, n).node)),
    decreases x, 0nat,
{
    match x {
        PatView::Ident(_) => {},
        PatView::Object(props) => {
            lemma_tracks_pat_props(p, props, n);
        },
        PatView::Expr(e) => {
            lemma_tracks_expr(p, *e, n);
        },
        PatView::Other(o) => {
            lemma_tracks_other(p, o, n);
        },
    }
}

/// How pass `p` on a property of an object pattern goes with the dynamic `require`s in it.
pub proof fn lemma_tracks_pat_prop(p: Pass, x: ObjectPatPropView, n: nat)
    requires
        is_import_pass(p),
    ensures
        tracks(
            p,
            rw_pat_prop(p, x, n),
            dynamic_pat_prop(x),
            dynamic_pat_prop(rw_pat_prop(p, x, n).node),
        ),
    decreases x, 0nat,
{
    match x {
        ObjectPatPropView::Assign { name, default_value } => {
            lemma_tracks_opt_expr(p, default_value, n);
        },
        ObjectPatPropView::KeyValue { key, value } => {
            lemma_tracks_key(p, key, n);
            lemma_tracks_pat(p, value, n + rw_key(p, key, n).out.issued());
        },
        ObjectPatPropView::Other(o) => {
            lemma_tracks_other(p, o, n);
        },
    }
}

/// How pass `p` on the properties of an object pattern goes with the dynamic `require`s in it.
pub proof fn lemma_tracks_pat_props(p: Pass, x: Seq<ObjectPatPropView>, n: nat)
    requires
        is_import_pass(p),
    ensures
        tracks(
            p,
            rw_pat_props(p, x, n),
            dynamic_pat_props(x),
            dynamic_pat_props(rw_pat_props(p, x, n).node),
        ),
    decreases x, 0nat,
{
    if x.len() > 0 {
        let front = rw_pat_props(p, x.drop_last(), n);
        let last = rw_pat_prop(p, x.last(), n + front.out.issued());
        lemma_tracks_pat_props(p, x.drop_last(), n);
        lemma_tracks_pat_prop(p, x.last(), n + front.out.issued());
        lemma_dynamic_pat_props_push(front.node, last.node);
    }
}

/// How pass `p` on uninterpreted syntax goes with the dynamic `require`s in it.
pub proof fn lemma_tracks_other(p: Pass, x: OtherView, n: nat)
    requires
        is_import_pass(p),
    ensures
        tracks(p, rw_other(p, x, n), dynamic_other(x), dynamic_other(rw_other(p, x, n).node)),
    decreases x, 0nat,
{
    lemma_tracks_parts(p, x.parts, n);
}

/// How pass `p` on a sub-tree of uninterpreted syntax goes with the dynamic `require`s in it.
pub proof fn lemma_tracks_part(p: Pass, x: PartView, n: nat)
    requires
        is_import_pass(p),
    ensures
        tracks(p, rw_part(p, x, n), dynamic_part(x), dynamic_part(rw_part(p, x, n).node)),
    decreases x, 0nat,
{
    match x {
        PartView::Expr(e) => {
            lemma_tracks_expr(p, e, n);
        },
        PartView::Pat(q) => {
            lemma_tracks_pat(p, q, n);
        },
        PartView::Stmt(s) => {
            lemma_tracks_stmt(p, s, n);
        },
        PartView::Block(b) => {
            lemma_tracks_stmts(p, b, n);
        },
    }
}

/// How pass `p` on the sub-trees of uninterpreted syntax goes with the dynamic `require`s in it.
pub proof fn lemma_tracks_parts(p: Pass, x: Seq<PartView>, n: nat)
    requires
        is_import_pass(p),
    ensures
        tracks(p, rw_parts(p, x, n), dynamic_parts(x), dynamic_parts(rw_parts(p, x, n).node)),
    decreases x, 0nat,
{
    if x.len() > 0 {
        let front = rw_parts(p, x.drop_last(), n);
        let last = rw_part(p, x.last(), n + front.out.issued());
        lemma_tracks_parts(p, x.drop_last(), n);
        lemma_tracks_part(p, x.last(), n + front.out.issued());
        lemma_dynamic_parts_push(front.node, last.node);
    }
}

/// The dynamic `require`s of a declarator that may have left its
/// declaration.
pub open spec fn dynamic_remaining(d: Option<VarDeclaratorView>) -> bool {
    match d {
        Some(x) => dynamic_declarator(x),
        None => false,
    }
}

/// How pass `p` on a declarator goes with the dynamic `require`s in it.
pub proof fn lemma_tracks_declarator(p: Pass, x: VarDeclaratorView, n: nat)
    requires
        is_import_pass(p),
    ensures
        tracks(
            p,
            rw_declarator(p, x, n),
            dynamic_declarator(x),
            dynamic_remaining(rw_declarator(p, x, n).node),
        ),
    decreases x, 0nat,
{
    let name = rw_pat(p, x.name, n);
    let init = rw_opt_expr(p, x.init, n + name.out.issued());
    lemma_tracks_pat(p, x.name, n);
    lemma_tracks_opt_expr(p, x.init, n + name.out.issued());
    reveal(on_declarator);
    if init.node is Some && require_call(init.node->Some_0) is Literal {
        lemma_literal_require_is_static(init.node->Some_0);
        if name.node is Object && pure_destructuring(name.node->Object_0) {
            lemma_pure_destructuring_is_static(name.node->Object_0);
        }
    }
}

/// How pass `p` on the declarators of a declaration goes with the dynamic `require`s in it.
pub proof fn lemma_tracks_declarators(p: Pass, x: Seq<VarDeclaratorView>, n: nat)
    requires
        is_import_pass(p),
    ensures
        tracks(
            p,
            rw_declarators(p, x, n),
            dynamic_declarators(x),
            dynamic_declarators(rw_declarators(p, x, n).node),
        ),
    decreases x, 0nat,
{
    if x.len() > 0 {
        let front = rw_declarators(p, x.drop_last(), n);
        let last = rw_declarator(p, x.last(), n + front.out.issued());
        lemma_tracks_declarators(p, x.drop_last(), n);
        lemma_tracks_declarator(p, x.last(), n + front.out.issued());
        match last.node {
            Some(d) => {
                lemma_dynamic_declarators_push(front.node, d);
            },
            None => {},
        }
    }
}

/// How pass `p` on a statement goes with the dynamic `require`s in it.
pub proof fn lemma_tracks_stmt(p: Pass, x: StmtView, n: nat)
    requires
        is_import_pass(p),
    ensures
        tracks(p, rw_stmt(p, x, n), dynamic_stmt(x), dynamic_stmt(rw_stmt(p, x, n).node)),
    decreases x, 0nat,
{
    match x {
        StmtView::Empty => {},
        StmtView::Expr(e) => {
            let inner = rw_expr(p, e, n);
            lemma_tracks_expr(p, e, n);
            reveal(on_expr_stmt);
            if require_call(inner.node) is Literal {
                lemma_literal_require_is_static(inner.node);
            }
        },
        StmtView::Var(d) => {
            lemma_tracks_declarators(p, d.decls, n);
        },
        StmtView::Other(o) => {
            lemma_tracks_other(p, o, n);
        },
    }
}

/// How pass `p` on a statement list goes with the dynamic `require`s in it.
pub proof fn lemma_tracks_stmts(p: Pass, x: Seq<StmtView>, n: nat)
    requires
        is_import_pass(p),
    ensures
        tracks(p, rw_stmts(p, x, n), dynamic_stmts(x), dynamic_stmts(rw_stmts(p, x, n).node)),
    decreases x, 0nat,
{
    if x.len() > 0 {
        let front = rw_stmts(p, x.drop_last(), n);
        let last = rw_stmt(p, x.last(), n + front.out.issued());
        lemma_tracks_stmts(p, x.drop_last(), n);
        lemma_tracks_stmt(p, x.last(), n + front.out.issued());
        if last.node !is Empty {
            lemma_dynamic_stmts_push(front.node, last.node);
        }
    }
}

/// How pass `p` on an item of a module goes with the dynamic `require`s in it.
pub proof fn lemma_tracks_item(p: Pass, x: ModuleItemView, n: nat)
    requires
        is_import_pass(p),
    ensures
        tracks(p, rw_item(p, x, n), dynamic_item(x), dynamic_item(rw_item(p, x, n).node)),
{
    match x {
        ModuleItemView::Stmt(s) => {
            lemma_tracks_stmt(p, s, n);
        },
        ModuleItemView::Import(_) => {},
        ModuleItemView::ExportNamed(_) => {},
        ModuleItemView::ExportDefault(e) => {
            lemma_tracks_expr(p, e, n);
        },
        ModuleItemView::ExportConst { name, init } => {
            lemma_tracks_expr(p, init, n);
        },
        ModuleItemView::Other(o) => {
            lemma_tracks_other(p, o, n);
        },
    }
}

/// How pass `p` on the items of a module goes with the dynamic `require`s in it.
pub proof fn lemma_tracks_items(p: Pass, x: Seq<ModuleItemView>, n: nat)
    requires
        is_import_pass(p),
    ensures
        tracks(p, rw_items(p, x, n), dynamic_items(x), dynamic_items(rw_items(p, x, n).node)),
    decreases x.len(),
{
    if x.len() > 0 {
        let front = rw_items(p, x.drop_last(), n);
        let last = rw_item(p, x.last(), n + front.out.issued());
        lemma_tracks_items(p, x.drop_last(), n);
        lemma_tracks_item(p, x.last(), n + front.out.issued());
        if last.node != ModuleItemView::Stmt(StmtView::Empty) {
            lemma_dynamic_items_push(front.node, last.node);
        }
    }
}

/// A dynamic `require` in two lists of items in a row is in one of the two.
proof fn lemma_dynamic_items_concat(a: Seq<ModuleItemView>, b: Seq<ModuleItemView>)
    ensures
        dynamic_items(a + b) == (dynamic_items(a) || dynamic_items(b)),
    decreases b.len(),
{
    if b.len() == 0 {
        assert(a + b =~= a);
    } else {
        assert((a + b).drop_last() =~= a + b.drop_last());
        lemma_dynamic_items_concat(a, b.drop_last());
    }
}

/// Imports hold no expression, so no dynamic `require`.
proof fn lemma_imports_are_static(s: Seq<ImportDeclView>)
    ensures
        !dynamic_items(import_items(s)),
    decreases s.len(),
{
    if s.len() > 0 {
        assert(import_items(s).drop_last() =~= import_items(s.drop_last()));
        lemma_imports_are_static(s.drop_last());
    }
}

/// An import pass fails only on a module that holds a dynamic `require`; the
/// fallback pass fails on every such module; and an earlier import pass that
/// ends well hands on a module that holds a dynamic `require` if and only if
/// the module it was given holds one.
pub proof fn law_import_pass_and_dynamic_require(p: Pass, m: ModuleView)
    requires
        is_import_pass(p),
    ensures
        apply(p, m) is Err ==> holds_dynamic_require(m),
        p == Pass::RequireFallback ==> (apply(p, m) is Err <==> holds_dynamic_require(m)),
        p != Pass::RequireFallback ==> (apply(p, m) matches Ok(out) ==> holds_dynamic_require(
            out.module,
        ) == holds_dynamic_require(m)),
{
    reveal(apply);
    let r = rw_items(p, m.body, 0);
    lemma_tracks_items(p, m.body, 0);
    lemma_frame_items(p, m.body, 0);
    assert(hoisted_items(r.out.decls) =~= Seq::<ModuleItemView>::empty());
    assert(r.out.exports =~= Seq::<ModuleItemView>::empty());
    assert(r.out.default_export is Unset);
    assert(flush(r.node, r.out) =~= import_items(r.out.imports) + r.node);
    lemma_dynamic_items_concat(import_items(r.out.imports), r.node);
    lemma_imports_are_static(r.out.imports);
}

/// The import passes fail exactly on the modules that hold a dynamic
/// `require`.
pub proof fn law_imports_fail_exactly_on_dynamic_require(m: ModuleView)
    ensures
        imports_of(untouched(m)) is Err <==> holds_dynamic_require(m),
{
    law_import_pass_and_dynamic_require(Pass::RequireStatement, m);
    let a = followed_by(untouched(m), Pass::RequireStatement);
    if a is Ok {
        law_import_pass_and_dynamic_require(Pass::RequireIdent, a->Ok_0.module);
        let b = followed_by(a, Pass::RequireIdent);
        if b is Ok {
            law_import_pass_and_dynamic_require(Pass::PureDestructuredRequire, b->Ok_0.module);
            let c = followed_by(b, Pass::PureDestructuredRequire);
            if c is Ok {
                law_import_pass_and_dynamic_require(Pass::RequireFallback, c->Ok_0.module);
            }
        }
    }
}

/// The cascade fails exactly on the modules that hold, at any depth, a call
/// `require(<arg>)` whose only argument is not a string literal; on every
/// other module it ends well.
pub proof fn law_cascade_fails_exactly_on_dynamic_require(m: ModuleView)
    ensures
        cascade(m) is Err <==> holds_dynamic_require(m),
        cascade(m) is Err ==> cascade(m) == Err::<OutputView, RewriteError>(
            RewriteError::DynamicRequire,
        ),
{
    law_imports_fail_exactly_on_dynamic_require(m);
    let imported = imports_of(untouched(m));
    if imported is Ok {
        law_exports_end_well(imported);
    }
}

} // verus!