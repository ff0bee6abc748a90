//! What the cascade hands on: a tree in which every shape that a rule
//! recognises has been converted.
//!
//! A pass takes its shapes away for good: after the fallback no call of
//! `require` with one argument is left, after the property pass no
//! assignment statement to `exports.<name>` with a value to export, and after
//! the last pass no assignment statement to `module.exports`; and no later
//! pass brings one back.
use crate::ast::{
    AssignExprView, CallExprView, ExprView, KeyView, MemberExprView, ModuleItemView, ModuleView,
    ObjectPatPropView, OtherView, PartView, PatView, PropView, StmtView, VarDeclaratorView,
};
use crate::failure::{lemma_require_kept, lemma_shape_kept};
use crate::transform_cjs::{cascade, followed_by, untouched};
use crate::traverse::{
    apply, default_items, flush, hoisted_items, import_items, on_declarator, on_expr, on_expr_stmt,
    rw_assign, rw_call, rw_children, rw_declarator, rw_declarators, rw_expr, rw_exprs, rw_item,
    rw_items, rw_key, rw_member, rw_opt_expr, rw_other, rw_part, rw_parts, rw_pat, rw_pat_prop,
    rw_pat_props, rw_prop, rw_props, rw_stmt, rw_stmts,
};
use crate::utils::{export_property, is_export_default, require_call};
use crate::traverse::added_default;
use crate::visitors::{
    expand_object, DefaultExportView, DefaultFindingView, Pass, PendingView, Rewrite,
};
use vstd::prelude::*;

verus! {

/// The stage from which no call of `require` with one argument is left.
pub open spec fn requires_gone() -> nat {
    1
}

/// The stage from which, besides, no statement assigns a value to export to
/// `module.exports.<name>` or `exports.<name>`.
pub open spec fn properties_gone() -> nat {
    2
}

/// The stage from which, besides, no statement assigns to `module.exports`.
pub open spec fn defaults_gone() -> nat {
    3
}

/// The stage that a pass starts from.
pub open spec fn stage_before(p: Pass) -> nat {
    match p {
        Pass::RequireStatement => 0,
        Pass::RequireIdent => 0,
        Pass::PureDestructuredRequire => 0,
        Pass::RequireFallback => 0,
        Pass::ModuleExportsIdent => requires_gone(),
        Pass::ModuleExportsNamedExpr => requires_gone(),
        Pass::ExportDefaultObject => properties_gone(),
        Pass::ModuleDefaultExport => properties_gone(),
    }
}

/// The stage that a pass reaches.
pub open spec fn stage_after(p: Pass) -> nat {
    match p {
        Pass::RequireStatement => 0,
        Pass::RequireIdent => 0,
        Pass::PureDestructuredRequire => 0,
        Pass::RequireFallback => requires_gone(),
        Pass::ModuleExportsIdent => requires_gone(),
        Pass::ModuleExportsNamedExpr => properties_gone(),
        Pass::ExportDefaultObject => properties_gone(),
        Pass::ModuleDefaultExport => defaults_gone(),
    }
}

/// At stage `k`, the expression of an expression statement is no assignment
/// that a rule before that stage takes.
pub open spec fn converted_assignment(e: ExprView, k: nat) -> bool {
    match e {
        ExprView::Assign(a) => {
            &&& k >= properties_gone() ==> !(export_property(a) is Some && *a.right !is Object)
            &&& k >= defaults_gone() ==> !is_export_default(a)
        },
        _ => true,
    }
}

/// The sub-trees of the expression are converted up to stage `k`.
pub open spec fn converted_below(e: ExprView, k: nat) -> bool
    decreases e, 0nat,
{
    match e {
        ExprView::Ident(_) => true,
        ExprView::Str(_) => true,
        ExprView::Call(c) => converted_call(c, k),
        ExprView::Member(m) => converted_member(m, k),
        ExprView::Assign(a) => converted_assign(a, k),
        ExprView::Object(props) => converted_props(props, k),
        ExprView::Other(o) => converted_other(o, k),
    }
}

/// The expression is converted up to stage `k`.
pub open spec fn converted_expr(e: ExprView, k: nat) -> bool
    decreases e, 1nat,
{
    &&& k >= requires_gone() ==> require_call(e) is NotRequire
    &&& converted_below(e, k)
}

/// Converted up to stage `k`: the sub-trees of a call.
pub open spec fn converted_call(c: CallExprView, k: nat) -> bool
    decreases c, 0nat,
{
    converted_expr(*c.callee, k) && converted_exprs(c.args, k)
}

/// Converted up to stage `k`: the sub-trees of a member access.
pub open spec fn converted_member(m: MemberExprView, k: nat) -> bool
    decreases m, 0nat,
{
    converted_expr(*m.obj, k) && converted_key(m.prop, k)
}

/// Converted up to stage `k`: the sub-trees of an assignment.
pub open spec fn converted_assign(a: AssignExprView, k: nat) -> bool
    decreases a, 0nat,
{
    converted_pat(a.left, k) && converted_expr(*a.right, k)
}

/// Converted up to stage `k`: the arguments of a call.
pub open spec fn converted_exprs(s: Seq<ExprView>, k: nat) -> bool
    decreases s, 0nat,
{
    forall|i: int| 0 <= i < s.len() ==> converted_expr(#[trigger] s[i], k)
}

/// Converted up to stage `k`: an expression that may be absent.
pub open spec fn converted_opt_expr(e: Option<ExprView>, k: nat) -> bool
    decreases e, 0nat,
{
    match e {
        Some(x) => converted_expr(x, k),
        None => true,
    }
}

/// Converted up to stage `k`: a key.
pub open spec fn converted_key(x: KeyView, k: nat) -> bool
    decreases x, 0nat,
{
    match x {
        KeyView::Ident(_) => true,
        KeyView::Str(_) => true,
        KeyView::Computed(e) => converted_expr(*e, k),
        KeyView::Other(o) => converted_other(o, k),
    }
}

/// Converted up to stage `k`: a property of an object literal.
pub open spec fn converted_prop(x: PropView, k: nat) -> bool
    decreases x, 0nat,
{
    match x {
        PropView::Shorthand(_) => true,
        PropView::KeyValue { key, value } => converted_key(key, k) && converted_expr(value, k),
        PropView::Other(o) => converted_other(o, k),
    }
}

/// Converted up to stage `k`: the properties of an object literal.
pub open spec fn converted_props(s: Seq<PropView>, k: nat) -> bool
    decreases s, 0nat,
{
    forall|i: int| 0 <= i < s.len() ==> converted_prop(#[trigger] s[i], k)
}

/// Converted up to stage `k`: a pattern.
pub open spec fn converted_pat(x: PatView, k: nat) -> bool
    decreases x, 0nat,
{
    match x {
        PatView::Ident(_) => true,
        PatView::Object(props) => converted_pat_props(props, k),
        PatView::Expr(e) => converted_expr(*e, k),
        PatView::Other(o) => converted_other(o, k),
    }
}

/// Converted up to stage `k`: a property of an object pattern.
pub open spec fn converted_pat_prop(x: ObjectPatPropView, k: nat) -> bool
    decreases x, 0nat,
{
    match x {
        ObjectPatPropView::Assign { name, default_value } => converted_opt_expr(default_value, k),
        ObjectPatPropView::KeyValue { key, value } => converted_key(key, k) && converted_pat(
            value,
            k,
        ),
        ObjectPatPropView::Other(o) => converted_other(o, k),
    }
}

/// Converted up to stage `k`: the properties of an object pattern.
pub open spec fn converted_pat_props(s: Seq<ObjectPatPropView>, k: nat) -> bool
    decreases s, 0nat,
{
    forall|i: int| 0 <= i < s.len() ==> converted_pat_prop(#[trigger] s[i], k)
}

/// Converted up to stage `k`: uninterpreted syntax.
pub open spec fn converted_other(o: OtherView, k: nat) -> bool
    decreases o, 0nat,
{
    converted_parts(o.parts, k)
}

/// Converted up to stage `k`: a sub-tree of uninterpreted syntax.
pub open spec fn converted_part(x: PartView, k: nat) -> bool
    decreases x, 0nat,
{
    match x {
        PartView::Expr(e) => converted_expr(e, k),
        PartView::Pat(q) => converted_pat(q, k),
        PartView::Stmt(s) => converted_stmt(s, k),
        PartView::Block(b) => converted_stmts(b, k),
    }
}

/// Converted up to stage `k`: the sub-trees of uninterpreted syntax.
pub open spec fn converted_parts(s: Seq<PartView>, k: nat) -> bool
    decreases s, 0nat,
{
    forall|i: int| 0 <= i < s.len() ==> converted_part(#[trigger] s[i], k)
}

/// Converted up to stage `k`: a declarator.
pub open spec fn converted_declarator(d: VarDeclaratorView, k: nat) -> bool
    decreases d, 0nat,
{
    converted_pat(d.name, k) && converted_opt_expr(d.init, k)
}

/// Converted up to stage `k`: the declarators of a declaration.
pub open spec fn converted_declarators(s: Seq<VarDeclaratorView>, k: nat) -> bool
    decreases s, 0nat,
{
    forall|i: int| 0 <= i < s.len() ==> converted_declarator(#[trigger] s[i], k)
}

/// The statement is converted up to stage `k`.
pub open spec fn converted_stmt(s: StmtView, k: nat) -> bool
    decreases s, 0nat,
{
    match s {
        StmtView::Empty => true,
        StmtView::Expr(e) => converted_expr(e, k) && converted_assignment(e, k),
        StmtView::Var(d) => converted_declarators(d.decls, k),
        StmtView::Other(o) => converted_other(o, k),
    }
}

/// Converted up to stage `k`: a statement list.
pub open spec fn converted_stmts(s: Seq<StmtView>, k: nat) -> bool
    decreases s, 0nat,
{
    forall|i: int| 0 <= i < s.len() ==> converted_stmt(#[trigger] s[i], k)
}

/// Converted up to stage `k`: an item of a module.
pub open spec fn converted_item(item: ModuleItemView, k: nat) -> bool {
    match item {
        ModuleItemView::Stmt(s) => converted_stmt(s, k),
        ModuleItemView::Import(_) => true,
        ModuleItemView::ExportNamed(_) => true,
        ModuleItemView::ExportDefault(e) => converted_expr(e, k),
        ModuleItemView::ExportConst { name, init } => converted_expr(init, k),
        ModuleItemView::Other(o) => converted_other(o, k),
    }
}

/// Converted up to stage `k`: the items of a module.
pub open spec fn converted_items(s: Seq<ModuleItemView>, k: nat) -> bool {
    forall|i: int| 0 <= i < s.len() ==> converted_item(#[trigger] s[i], k)
}

/// The module is converted up to stage `k`: at no depth does it hold a shape
/// that a rule before that stage takes.
pub open spec fn converted_module(m: ModuleView, k: nat) -> bool {
    converted_items(m.body, k)
}

/// A module in which every recognised shape has been converted: it holds,
/// at any depth, no call of `require` with exactly one argument, no
/// statement that assigns to `module.exports`, and no statement that assigns
/// anything but an object literal to `module.exports.<name>` or
/// `exports.<name>`.
pub open spec fn fully_converted(m: ModuleView) -> bool {
    converted_module(m, defaults_gone())
}

/// A pending default export is converted up to stage `k`.
pub open spec fn converted_default(d: DefaultFindingView, k: nat) -> bool {
    match d {
        DefaultFindingView::Found(DefaultExportView::Value(e)) => converted_expr(e, k),
        _ => true,
    }
}

/// What a pass has recorded is converted up to stage `k`.
pub open spec fn converted_pending(out: PendingView, k: nat) -> bool {
    &&& converted_declarators(out.decls, k)
    &&& converted_items(out.exports, k)
    &&& converted_default(out.default_export, k)
}

/// A rewrite that has not been abandoned has reached stage `k`, in the node
/// and in what it recorded.
pub open spec fn reached<T>(r: Rewrite<T>, node_is_converted: bool, k: nat) -> bool {
    !r.fatal ==> node_is_converted && converted_pending(r.out, k)
}

/// Where both halves of what is pending have reached a stage, the whole has.
pub proof fn lemma_converted_concat(a: PendingView, b: PendingView, k: nat)
    ensures
        converted_pending(a, k) && converted_pending(b, k) ==> converted_pending(a.concat(b), k),
{
    if converted_pending(a, k) && converted_pending(b, k) {
        let c = a.concat(b);
        assert forall|i: int| 0 <= i < c.decls.len() implies converted_declarator(
            #[trigger] c.decls[i],
            k,
        ) by {
            if i < a.decls.len() {
                assert(c.decls[i] == a.decls[i]);
            } else {
                assert(c.decls[i] == b.decls[i - a.decls.len()]);
            }
        }
        assert forall|i: int| 0 <= i < c.exports.len() implies converted_item(
            #[trigger] c.exports[i],
            k,
        ) by {
            if i < a.exports.len() {
                assert(c.exports[i] == a.exports[i]);
            } else {
                assert(c.exports[i] == b.exports[i - a.exports.len()]);
            }
        }
    }
}

/// The constants that an expansion declares hold the values of the
/// properties, so they have reached the stage that the properties have.
pub proof fn lemma_expansion_converted(props: Seq<PropView>, n: nat, k: nat)
    requires
        converted_props(props, k),
    ensures
        converted_declarators(expand_object(props, n).decls, k),
    decreases props.len(),
{
    if props.len() > 0 {
        let front = props.drop_last();
        assert forall|i: int| 0 <= i < front.len() implies converted_prop(
            #[trigger] front[i],
            k,
        ) by {
            assert(front[i] == props[i]);
        }
        lemma_expansion_converted(front, n, k);
        assert(converted_prop(props[props.len() - 1], k));
        let prev = expand_object(front, n);
        let now = expand_object(props, n);
        assert forall|j: int| 0 <= j < now.decls.len() implies converted_declarator(
            #[trigger] now.decls[j],
            k,
        ) by {
            if j < prev.decls.len() {
                assert(now.decls[j] == prev.decls[j]);
            }
        }
    }
}

/// Before the fallback and after it, a pass changes neither what sort of
/// expression it meets nor an identifier.
pub proof fn lemma_sort_kept(p: Pass, e: ExprView, n: nat)
    requires
        p != Pass::RequireFallback,
    ensures
        rw_expr(p, e, n).node is Ident <==> e is Ident,
        e is Ident ==> rw_expr(p, e, n).node == e,
        rw_expr(p, e, n).node is Object <==> e is Object,
        rw_expr(p, e, n).node is Member <==> e is Member,
        e is Member ==> rw_expr(p, e, n).node->Member_0 == rw_member(p, e->Member_0, n).node,
        rw_expr(p, e, n).node is Assign <==> e is Assign,
        e is Assign ==> rw_expr(p, e, n).node->Assign_0 == rw_assign(p, e->Assign_0, n).node,
{
    reveal(on_expr);
}

/// A pass changes neither whether a key is an identifier nor the
/// identifier.
proof fn lemma_key_kept(p: Pass, x: KeyView, n: nat)
    ensures
        rw_key(p, x, n).node is Ident <==> x is Ident,
        x is Ident ==> rw_key(p, x, n).node == x,
{
}

/// Before the fallback and after it, a pass changes nothing of whether an
/// expression is `module.exports`.
proof fn lemma_module_exports_kept(p: Pass, e: ExprView, n: nat)
    requires
        p != Pass::RequireFallback,
    ensures
        crate::utils::is_module_exports(rw_expr(p, e, n).node) == crate::utils::is_module_exports(
            e,
        ),
{
    lemma_sort_kept(p, e, n);
    match e {
        ExprView::Member(m) => {
            let obj = rw_expr(p, *m.obj, n);
            lemma_sort_kept(p, *m.obj, n);
            lemma_key_kept(p, m.prop, n + obj.out.issued());
        },
        _ => {},
    }
}

/// Before the fallback and after it, a pass changes nothing of what an
/// assignment assigns to, nor whether it assigns an object literal.
pub proof fn lemma_target_kept(p: Pass, a: AssignExprView, n: nat)
    requires
        p != Pass::RequireFallback,
    ensures
        export_property(rw_assign(p, a, n).node) == export_property(a),
        is_export_default(rw_assign(p, a, n).node) == is_export_default(a),
        *rw_assign(p, a, n).node.right is Object <==> *a.right is Object,
{
    let left = rw_pat(p, a.left, n);
    lemma_sort_kept(p, *a.right, n + left.out.issued());
    match a.left {
        PatView::Expr(target) => {
            lemma_sort_kept(p, *target, n);
            lemma_module_exports_kept(p, *target, n);
            match *target {
                ExprView::Member(m) => {
                    let obj = rw_expr(p, *m.obj, n);
                    lemma_sort_kept(p, *m.obj, n);
                    lemma_module_exports_kept(p, *m.obj, n);
                    lemma_key_kept(p, m.prop, n + obj.out.issued());
                },
                _ => {},
            }
        },
        _ => {},
    }
}

/// A statement that no rule before the pass's stage takes is still none
/// after its sub-trees are rewritten.
proof fn lemma_assignment_kept(p: Pass, e: ExprView, n: nat)
    requires
        stage_before(p) >= 1 ==> converted_assignment(e, stage_before(p)),
    ensures
        stage_before(p) >= 1 ==> converted_assignment(rw_expr(p, e, n).node, stage_before(p)),
{
    if stage_before(p) >= 1 {
        lemma_sort_kept(p, e, n);
        match e {
            ExprView::Assign(a) => {
                lemma_target_kept(p, a, n);
            },
            _ => {},
        }
    }
}

/// The rule for an expression reaches the pass's stage.
proof fn lemma_converts_on_expr(p: Pass, e: ExprView, n: nat)
    requires
        converted_below(e, stage_after(p)),
        stage_before(p) >= 1 ==> require_call(e) is NotRequire,
    ensures
        reached(
            on_expr(p, e, n),
            converted_expr(on_expr(p, e, n).node, stage_after(p)),
            stage_after(p),
        ),
{
    reveal(on_expr);
}

/// A declarator that may have left its declaration has reached stage `k`.
pub open spec fn converted_remaining(d: Option<VarDeclaratorView>, k: nat) -> bool {
    match d {
        Some(x) => converted_declarator(x, k),
        None => true,
    }
}

/// The rule for a declarator reaches the pass's stage.
proof fn lemma_converts_on_declarator(p: Pass, d: VarDeclaratorView)
    requires
        converted_declarator(d, stage_after(p)),
    ensures
        reached(
            on_declarator(p, d),
            converted_remaining(on_declarator(p, d).node, stage_after(p)),
            stage_after(p),
        ),
{
    reveal(on_declarator);
}

/// The rule for an expression statement reaches the pass's stage.
proof fn lemma_converts_on_expr_stmt(p: Pass, e: ExprView, n: nat)
    requires
        converted_expr(e, stage_after(p)),
        stage_before(p) >= 1 ==> converted_assignment(e, stage_before(p)),
    ensures
        reached(
            on_expr_stmt(p, e, n),
            converted_stmt(on_expr_stmt(p, e, n).node, stage_after(p)),
            stage_after(p),
        ),
{
    reveal(on_expr_stmt);
    match e {
        ExprView::Assign(a) => {
            assert(converted_assign(a, stage_after(p)));
            assert(converted_expr(*a.right, stage_after(p)));
            match *a.right {
                ExprView::Object(props) => {
                    lemma_expansion_converted(props, n, stage_after(p));
                },
                _ => {},
            }
        },
        _ => {},
    }
}

/// Pass `p` on the sub-trees of a call reaches its stage.
pub proof fn lemma_converts_call(p: Pass, x: CallExprView, n: nat)
    requires
        stage_before(p) >= 1 ==> converted_call(x, stage_before(p)),
    ensures
        reached(
            rw_call(p, x, n),
            converted_call(rw_call(p, x, n).node, stage_after(p)),
            stage_after(p),
        ),
    decreases x, 0nat,
{
    let callee = rw_expr(p, *x.callee, n);
    let args = rw_exprs(p, x.args, n + callee.out.issued());
    lemma_converts_expr(p, *x.callee, n);
    lemma_converts_exprs(p, x.args, n + callee.out.issued());
    lemma_converted_concat(callee.out, args.out, stage_after(p));
}

/// Pass `p` on the sub-trees of a member access reaches its stage.
pub proof fn lemma_converts_member(p: Pass, x: MemberExprView, n: nat)
    requires
        stage_before(p) >= 1 ==> converted_member(x, stage_before(p)),
    ensures
        reached(
            rw_member(p, x, n),
            converted_member(rw_member(p, x, n).node, stage_after(p)),
            stage_after(p),
        ),
    decreases x, 0nat,
{
    let obj = rw_expr(p, *x.obj, n);
    let prop = rw_key(p, x.prop, n + obj.out.issued());
    lemma_converts_expr(p, *x.obj, n);
    lemma_converts_key(p, x.prop, n + obj.out.issued());
    lemma_converted_concat(obj.out, prop.out, stage_after(p));
}

/// Pass `p` on the sub-trees of an assignment reaches its stage.
pub proof fn lemma_converts_assign(p: Pass, x: AssignExprView, n: nat)
    requires
        stage_before(p) >= 1 ==> converted_assign(x, stage_before(p)),
    ensures
        reached(
            rw_assign(p, x, n),
            converted_assign(rw_assign(p, x, n).node, stage_after(p)),
            stage_after(p),
        ),
    decreases x, 0nat,
{
    let left = rw_pat(p, x.left, n);
    let right = rw_expr(p, *x.right, n + left.out.issued());
    lemma_converts_pat(p, x.left, n);
    lemma_converts_expr(p, *x.right, n + left.out.issued());
    lemma_converted_concat(left.out, right.out, stage_after(p));
}

/// Pass `p` on the sub-trees of an expression reaches its stage.
pub proof fn lemma_converts_children(p: Pass, x: ExprView, n: nat)
    requires
        stage_before(p) >= 1 ==> converted_below(x, stage_before(p)),
    ensures
        reached(
            rw_children(p, x, n),
            converted_below(rw_children(p, x, n).node, stage_after(p)),
            stage_after(p),
        ),
    decreases x, 0nat,
{
    match x {
        ExprView::Ident(_) => {},
        ExprView::Str(_) => {},
        ExprView::Call(c) => {
            lemma_converts_call(p, c, n);
        },
        ExprView::Member(m) => {
            lemma_converts_member(p, m, n);
        },
        ExprView::Assign(a) => {
            lemma_converts_assign(p, a, n);
        },
        ExprView::Object(props) => {
            lemma_converts_props(p, props, n);
        },
        ExprView::Other(o) => {
            lemma_converts_other(p, o, n);
        },
    }
}

/// Pass `p` on an expression reaches its stage.
pub proof fn lemma_converts_expr(p: Pass, x: ExprView, n: nat)
    requires
        stage_before(p) >= 1 ==> converted_expr(x, stage_before(p)),
    ensures
        reached(
            rw_expr(p, x, n),
            converted_expr(rw_expr(p, x, n).node, stage_after(p)),
            stage_after(p),
        ),
    decreases x, 1nat,
{
    let inner = rw_children(p, x, n);
    lemma_converts_children(p, x, n);
    if !inner.fatal {
        lemma_shape_kept(p, x, n);
        match x {
            ExprView::Call(c) => {
                lemma_require_kept(p, c, n);
            },
            _ => {},
        }
        lemma_converts_on_expr(p, inner.node, n + inner.out.issued());
        lemma_converted_concat(
            inner.out,
            on_expr(p, inner.node, n + inner.out.issued()).out,
            stage_after(p),
        );
    }
}

/// Pass `p` on the arguments of a call reaches its stage.
pub proof fn lemma_converts_exprs(p: Pass, x: Seq<ExprView>, n: nat)
    requires
        stage_before(p) >= 1 ==> converted_exprs(x, stage_before(p)),
    ensures
        reached(
            rw_exprs(p, x, n),
            converted_exprs(rw_exprs(p, x, n).node, stage_after(p)),
            stage_after(p),
        ),
    decreases x, 0nat,
{
    if x.len() > 0 {
        let front = rw_exprs(p, x.drop_last(), n);
        let last = rw_expr(p, x.last(), n + front.out.issued());
        if stage_before(p) >= 1 {
            assert forall|i: int| 0 <= i < x.drop_last().len() implies converted_expr(
                #[trigger] x.drop_last()[i],
                stage_before(p),
            ) by {
                assert(x.drop_last()[i] == x[i]);
            }
            assert(converted_expr(x[x.len() - 1], stage_before(p)));
        }
        lemma_converts_exprs(p, x.drop_last(), n);
        lemma_converts_expr(p, x.last(), n + front.out.issued());
        lemma_converted_concat(front.out, last.out, stage_after(p));
    }
}

/// Pass `p` on an expression that may be absent reaches its stage.
pub proof fn lemma_converts_opt_expr(p: Pass, x: Option<ExprView>, n: nat)
    requires
        stage_before(p) >= 1 ==> converted_opt_expr(x, stage_before(p)),
    ensures
        reached(
            rw_opt_expr(p, x, n),
            converted_opt_expr(rw_opt_expr(p, x, n).node, stage_after(p)),
            stage_after(p),
        ),
    decreases x, 0nat,
{
    match x {
        Some(e) => {
            lemma_converts_expr(p, e, n);
        },
        None => {},
    }
}

/// Pass `p` on a key reaches its stage.
pub proof fn lemma_converts_key(p: Pass, x: KeyView, n: nat)
    requires
        stage_before(p) >= 1 ==> converted_key(x, stage_before(p)),
    ensures
        reached(
            rw_key(p, x, n),
            converted_key(rw_key(p, x, n).node, stage_after(p)),
            stage_after(p),
        ),
    decreases x, 0nat,
{
    match x {
        KeyView::Ident(_) => {},
        KeyView::Str(_) => {},
        KeyView::Computed(e) => {
            lemma_converts_expr(p, *e, n);
        },
        KeyView::Other(o) => {
            lemma_converts_other(p, o, n);
        },
    }
}

/// Pass `p` on a property of an object literal reaches its stage.
pub proof fn lemma_converts_prop(p: Pass, x: PropView, n: nat)
    requires
        stage_before(p) >= 1 ==> converted_prop(x, stage_before(p)),
    ensures
        reached(
            rw_prop(p, x, n),
            converted_prop(rw_prop(p, x, n).node, stage_after(p)),
            stage_after(p),
        ),
    decreases x, 0nat,
{
    match x {
        PropView::Shorthand(_) => {},
        PropView::KeyValue { key, value } => {
            let a = rw_key(p, key, n);
            let b = rw_expr(p, value, n + a.out.issued());
            lemma_converts_key(p, key, n);
            lemma_converts_expr(p, value, n + a.out.issued());
            lemma_converted_concat(a.out, b.out, stage_after(p));
        },
        PropView::Other(o) => {
            lemma_converts_other(p, o, n);
        },
    }
}

/// Pass `p` on the properties of an object literal reaches its stage.
pub proof fn lemma_converts_props(p: Pass, x: Seq<PropView>, n: nat)
    requires
        stage_before(p) >= 1 ==> converted_props(x, stage_before(p)),
    ensures
        reached(
            rw_props(p, x, n),
            converted_props(rw_props(p, x, n).node, stage_after(p)),
            stage_after(p),
        ),
    decreases x, 0nat,
{
    if x.len() > 0 {
        let front = rw_props(p, x.drop_last(), n);
        let last = rw_prop(p, x.last(), n + front.out.issued());
        if stage_before(p) >= 1 {
            assert forall|i: int| 0 <= i < x.drop_last().len() implies converted_prop(
                #[trigger] x.drop_last()[i],
                stage_before(p),
            ) by {
                assert(x.drop_last()[i] == x[i]);
            }
            assert(converted_prop(x[x.len() - 1], stage_before(p)));
        }
        lemma_converts_props(p, x.drop_last(), n);
        lemma_converts_prop(p, x.last(), n + front.out.issued());
        lemma_converted_concat(front.out, last.out, stage_after(p));
    }
}

/// Pass `p` on a pattern reaches its stage.
pub proof fn lemma_converts_pat(p: Pass, x: PatView, n: nat)
    requires
        stage_before(p) >= 1 ==> converted_pat(x, stage_before(p)),
    ensures
        reached(
            rw_pat(p, x, n),
            converted_pat(rw_pat(p, x, n).node, stage_after(p)),
            stage_after(p),
        ),
    decreases x, 0nat,
{
    match x {
        PatView::Ident(_) => {},
        PatView::Object(props) => {
            lemma_converts_pat_props(p, props, n);
        },
        PatView::Expr(e) => {
            lemma_converts_expr(p, *e, n);
        },
        PatView::Other(o) => {
            lemma_converts_other(p, o, n);
        },
    }
}

/// Pass `p` on a property of an object pattern reaches its stage.
pub proof fn lemma_converts_pat_prop(p: Pass, x: ObjectPatPropView, n: nat)
    requires
        stage_before(p) >= 1 ==> converted_pat_prop(x, stage_before(p)),
    ensures
        reached(
            rw_pat_prop(p, x, n),
            converted_pat_prop(rw_pat_prop(p, x, n).node, stage_after(p)),
            stage_after(p),
        ),
    decreases x, 0nat,
{
    match x {
        ObjectPatPropView::Assign { name, default_value } => {
            lemma_converts_opt_expr(p, default_value, n);
        },
        ObjectPatPropView::KeyValue { key, value } => {
            let a = rw_key(p, key, n);
            let b = rw_pat(p, value, n + a.out.issued());
            lemma_converts_key(p, key, n);
            lemma_converts_pat(p, value, n + a.out.issued());
            lemma_converted_concat(a.out, b.out, stage_after(p));
        },
        ObjectPatPropView::Other(o) => {
            lemma_converts_other(p, o, n);
        },
    }
}

/// Pass `p` on the properties of an object pattern reaches its stage.
pub proof fn lemma_converts_pat_props(p: Pass, x: Seq<ObjectPatPropView>, n: nat)
    requires
        stage_before(p) >= 1 ==> converted_pat_props(x, stage_before(p)),
    ensures
        reached(
            rw_pat_props(p, x, n),
            converted_pat_props(rw_pat_props(p, x, n).node, stage_after(p)),
            stage_after(p),
        ),
    decreases x, 0nat,
{
    if x.len() > 0 {
        let front = rw_pat_props(p, x.drop_last(), n);
        let last = rw_pat_prop(p, x.last(), n + front.out.issued());
        if stage_before(p) >= 1 {
            assert forall|i: int| 0 <= i < x.drop_last().len() implies converted_pat_prop(
                #[trigger] x.drop_last()[i],
                stage_before(p),
            ) by {
                assert(x.drop_last()[i] == x[i]);
            }
            assert(converted_pat_prop(x[x.len() - 1], stage_before(p)));
        }
        lemma_converts_pat_props(p, x.drop_last(), n);
        lemma_converts_pat_prop(p, x.last(), n + front.out.issued());
        lemma_converted_concat(front.out, last.out, stage_after(p));
    }
}

/// Pass `p` on uninterpreted syntax reaches its stage.
pub proof fn lemma_converts_other(p: Pass, x: OtherView, n: nat)
    requires
        stage_before(p) >= 1 ==> converted_other(x, stage_before(p)),
    ensures
        reached(
            rw_other(p, x, n),
            converted_other(rw_other(p, x, n).node, stage_after(p)),
            stage_after(p),
        ),
    decreases x, 0nat,
{
    lemma_converts_parts(p, x.parts, n);
}

/// Pass `p` on a sub-tree of uninterpreted syntax reaches its stage.
pub proof fn lemma_converts_part(p: Pass, x: PartView, n: nat)
    requires
        stage_before(p) >= 1 ==> converted_part(x, stage_before(p)),
    ensures
        reached(
            rw_part(p, x, n),
            converted_part(rw_part(p, x, n).node, stage_after(p)),
            stage_after(p),
        ),
    decreases x, 0nat,
{
    match x {
        PartView::Expr(e) => {
            lemma_converts_expr(p, e, n);
        },
        PartView::Pat(q) => {
            lemma_converts_pat(p, q, n);
        },
        PartView::Stmt(s) => {
            lemma_converts_stmt(p, s, n);
        },
        PartView::Block(b) => {
            lemma_converts_stmts(p, b, n);
        },
    }
}

/// Pass `p` on the sub-trees of uninterpreted syntax reaches its stage.
pub proof fn lemma_converts_parts(p: Pass, x: Seq<PartView>, n: nat)
    requires
        stage_before(p) >= 1 ==> converted_parts(x, stage_before(p)),
    ensures
        reached(
            rw_parts(p, x, n),
            converted_parts(rw_parts(p, x, n).node, stage_after(p)),
            stage_after(p),
        ),
    decreases x, 0nat,
{
    if x.len() > 0 {
        let front = rw_parts(p, x.drop_last(), n);
        let last = rw_part(p, x.last(), n + front.out.issued());
        if stage_before(p) >= 1 {
            assert forall|i: int| 0 <= i < x.drop_last().len() implies converted_part(
                #[trigger] x.drop_last()[i],
                stage_before(p),
            ) by {
                assert(x.drop_last()[i] == x[i]);
            }
            assert(converted_part(x[x.len() - 1], stage_before(p)));
        }
        lemma_converts_parts(p, x.drop_last(), n);
        lemma_converts_part(p, x.last(), n + front.out.issued());
        lemma_converted_concat(front.out, last.out, stage_after(p));
    }
}

/// Pass `p` on a declarator reaches its stage.
pub proof fn lemma_converts_declarator(p: Pass, x: VarDeclaratorView, n: nat)
    requires
        stage_before(p) >= 1 ==> converted_declarator(x, stage_before(p)),
    ensures
        reached(
            rw_declarator(p, x, n),
            converted_remaining(rw_declarator(p, x, n).node, stage_after(p)),
            stage_after(p),
        ),
    decreases x, 0nat,
{
    let name = rw_pat(p, x.name, n);
    let init = rw_opt_expr(p, x.init, n + name.out.issued());
    lemma_converts_pat(p, x.name, n);
    lemma_converts_opt_expr(p, x.init, n + name.out.issued());
    lemma_converted_concat(name.out, init.out, stage_after(p));
    if !name.fatal && !init.fatal {
        let inner = VarDeclaratorView { name: name.node, init: init.node };
        lemma_converts_on_declarator(p, inner);
        lemma_converted_concat(
            name.out.concat(init.out),
            on_declarator(p, inner).out,
            stage_after(p),
        );
    }
}

/// Pass `p` on the declarators of a declaration reaches its stage.
pub proof fn lemma_converts_declarators(p: Pass, x: Seq<VarDeclaratorView>, n: nat)
    requires
        stage_before(p) >= 1 ==> converted_declarators(x, stage_before(p)),
    ensures
        reached(
            rw_declarators(p, x, n),
            converted_declarators(rw_declarators(p, x, n).node, stage_after(p)),
            stage_after(p),
        ),
    decreases x, 0nat,
{
    if x.len() > 0 {
        let front = rw_declarators(p, x.drop_last(), n);
        let last = rw_declarator(p, x.last(), n + front.out.issued());
        if stage_before(p) >= 1 {
            assert forall|i: int| 0 <= i < x.drop_last().len() implies converted_declarator(
                #[trigger] x.drop_last()[i],
                stage_before(p),
            ) by {
                assert(x.drop_last()[i] == x[i]);
            }
            assert(converted_declarator(x[x.len() - 1], stage_before(p)));
        }
        lemma_converts_declarators(p, x.drop_last(), n);
        lemma_converts_declarator(p, x.last(), n + front.out.issued());
        lemma_converted_concat(front.out, last.out, stage_after(p));
    }
}

/// Pass `p` on a statement reaches its stage.
pub proof fn lemma_converts_stmt(p: Pass, x: StmtView, n: nat)
    requires
        stage_before(p) >= 1 ==> converted_stmt(x, stage_before(p)),
    ensures
        reached(
            rw_stmt(p, x, n),
            converted_stmt(rw_stmt(p, x, n).node, stage_after(p)),
            stage_after(p),
        ),
    decreases x, 0nat,
{
    match x {
        StmtView::Empty => {},
        StmtView::Expr(e) => {
            let inner = rw_expr(p, e, n);
            lemma_converts_expr(p, e, n);
            if !inner.fatal {
                lemma_assignment_kept(p, e, n);
                lemma_converts_on_expr_stmt(p, inner.node, n + inner.out.issued());
                lemma_converted_concat(
                    inner.out,
                    on_expr_stmt(p, inner.node, n + inner.out.issued()).out,
                    stage_after(p),
                );
            }
        },
        StmtView::Var(d) => {
            lemma_converts_declarators(p, d.decls, n);
        },
        StmtView::Other(o) => {
            lemma_converts_other(p, o, n);
        },
    }
}

/// Pass `p` on a statement list reaches its stage.
pub proof fn lemma_converts_stmts(p: Pass, x: Seq<StmtView>, n: nat)
    requires
        stage_before(p) >= 1 ==> converted_stmts(x, stage_before(p)),
    ensures
        reached(
            rw_stmts(p, x, n),
            converted_stmts(rw_stmts(p, x, n).node, stage_after(p)),
            stage_after(p),
        ),
    decreases x, 0nat,
{
    if x.len() > 0 {
        let front = rw_stmts(p, x.drop_last(), n);
        let last = rw_stmt(p, x.last(), n + front.out.issued());
        if stage_before(p) >= 1 {
            assert forall|i: int| 0 <= i < x.drop_last().len() implies converted_stmt(
                #[trigger] x.drop_last()[i],
                stage_before(p),
            ) by {
                assert(x.drop_last()[i] == x[i]);
            }
            assert(converted_stmt(x[x.len() - 1], stage_before(p)));
        }
        lemma_converts_stmts(p, x.drop_last(), n);
        lemma_converts_stmt(p, x.last(), n + front.out.issued());
        lemma_converted_concat(front.out, last.out, stage_after(p));
    }
}

/// Pass `p` on an item of a module reaches its stage.
pub proof fn lemma_converts_item(p: Pass, x: ModuleItemView, n: nat)
    requires
        stage_before(p) >= 1 ==> converted_item(x, stage_before(p)),
    ensures
        reached(
            rw_item(p, x, n),
            converted_item(rw_item(p, x, n).node, stage_after(p)),
            stage_after(p),
        ),
{
    match x {
        ModuleItemView::Stmt(s) => {
            lemma_converts_stmt(p, s, n);
        },
        ModuleItemView::Import(_) => {},
        ModuleItemView::ExportNamed(_) => {},
        ModuleItemView::ExportDefault(e) => {
            lemma_converts_expr(p, e, n);
        },
        ModuleItemView::ExportConst { name, init } => {
            lemma_converts_expr(p, init, n);
        },
        ModuleItemView::Other(o) => {
            lemma_converts_other(p, o, n);
        },
    }
}

/// Pass `p` on the items of a module reaches its stage.
pub proof fn lemma_converts_items(p: Pass, x: Seq<ModuleItemView>, n: nat)
    requires
        stage_before(p) >= 1 ==> converted_items(x, stage_before(p)),
    ensures
        reached(
            rw_items(p, x, n),
            converted_items(rw_items(p, x, n).node, stage_after(p)),
            stage_after(p),
        ),
    decreases x.len(),
{
    if x.len() > 0 {
        let front = rw_items(p, x.drop_last(), n);
        let last = rw_item(p, x.last(), n + front.out.issued());
        if stage_before(p) >= 1 {
            assert forall|i: int| 0 <= i < x.drop_last().len() implies converted_item(
                #[trigger] x.drop_last()[i],
                stage_before(p),
            ) by {
                assert(x.drop_last()[i] == x[i]);
            }
            assert(converted_item(x[x.len() - 1], stage_before(p)));
        }
        lemma_converts_items(p, x.drop_last(), n);
        lemma_converts_item(p, x.last(), n + front.out.issued());
        lemma_converted_concat(front.out, last.out, stage_after(p));
    }
}

/// A pass takes its shapes away for good: given a module at the stage that
/// it starts from, it hands on a module at the stage that it reaches.
pub proof fn law_pass_reaches_its_stage(p: Pass, m: ModuleView)
    requires
        stage_before(p) >= 1 ==> converted_module(m, stage_before(p)),
    ensures
        apply(p, m) matches Ok(out) ==> converted_module(out.module, stage_after(p)),
{
    reveal(apply);
    let k = stage_after(p);
    let r = rw_items(p, m.body, 0);
    lemma_converts_items(p, m.body, 0);
    if !r.fatal {
        let body = flush(r.node, r.out);
        assert forall|i: int| 0 <= i < body.len() implies converted_item(
            #[trigger] body[i],
            k,
        ) by {
            let a = import_items(r.out.imports);
            let b = hoisted_items(r.out.decls);
            if i < a.len() {
                assert(body[i] == a[i]);
            } else if i < a.len() + r.node.len() {
                assert(body[i] == r.node[i - a.len()]);
            } else if i < a.len() + r.node.len() + b.len() {
                let j = i - a.len() - r.node.len();
                assert(body[i] == b[j]);
                assert(converted_declarator(r.out.decls[j], k));
                let one = seq![r.out.decls[j]];
                assert(converted_declarator(one[0], k));
            } else if i < a.len() + r.node.len() + b.len() + r.out.exports.len() {
                assert(body[i] == r.out.exports[i - a.len() - r.node.len() - b.len()]);
            } else {
                let d = default_items(added_default(r.node, r.out.default_export));
                assert(body[i] == d[i - a.len() - r.node.len() - b.len() - r.out.exports.len()]);
            }
        }
    }
}

/// Whatever module the cascade is given, the module that it hands on is
/// fully converted: every shape that a rule recognises is gone from it.
pub proof fn law_cascade_output_is_converted(m: ModuleView)
    ensures
        cascade(m) matches Ok(out) ==> fully_converted(out.module),
{
    let a = followed_by(untouched(m), Pass::RequireStatement);
    let b = followed_by(a, Pass::RequireIdent);
    let c = followed_by(b, Pass::PureDestructuredRequire);
    let d = followed_by(c, Pass::RequireFallback);
    let e = followed_by(d, Pass::ModuleExportsIdent);
    let f = followed_by(e, Pass::ModuleExportsNamedExpr);
    let g = followed_by(f, Pass::ExportDefaultObject);
    let h = followed_by(g, Pass::ModuleDefaultExport);
    if h is Ok {
        law_pass_reaches_its_stage(Pass::RequireFallback, c->Ok_0.module);
        law_pass_reaches_its_stage(Pass::ModuleExportsIdent, d->Ok_0.module);
        law_pass_reaches_its_stage(Pass::ModuleExportsNamedExpr, e->Ok_0.module);
        law_pass_reaches_its_stage(Pass::ExportDefaultObject, f->Ok_0.module);
        law_pass_reaches_its_stage(Pass::ModuleDefaultExport, g->Ok_0.module);
    }
}

} // verus!