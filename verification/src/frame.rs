//! What each pass keeps to: the import passes record imports and nothing
//! else, and the export passes never abandon the rewrite.
use crate::ast::{
    AssignExprView, CallExprView, ExprView, KeyView, MemberExprView, ModuleItemView, ModuleView,
    ObjectPatPropView, OtherView, PartView, PatView, PropView, StmtView, VarDeclaratorView,
};
use crate::transform_cjs::{exports_of, followed_by, imports_of, untouched};
use crate::traverse::{
    apply, on_declarator, on_expr, on_expr_stmt, rw_assign, rw_call, rw_children, rw_declarator,
    rw_declarators, rw_expr, rw_exprs, rw_item, rw_items, rw_key, rw_member, rw_opt_expr, rw_other,
    rw_part, rw_parts, rw_pat, rw_pat_prop, rw_pat_props, rw_prop, rw_props, rw_stmt, rw_stmts,
    OutputView,
};
use crate::utils::RewriteError;
use crate::visitors::{Pass, Rewrite};
use vstd::prelude::*;

verus! {

/// The four passes that turn `require` into `import`.
pub open spec fn is_import_pass(p: Pass) -> bool {
    p == Pass::RequireStatement || p == Pass::RequireIdent || p == Pass::PureDestructuredRequire
        || p == Pass::RequireFallback
}

/// What a pass keeps to: an import pass records nothing but imports, and an
/// export pass records no import and never abandons the rewrite. Only the
/// object pass records a warning, only the identifier pass a default export
/// by name or one left to a later pass, and only the last pass a default
/// export by value. No default export stands among the recorded exports.
pub open spec fn in_frame<T>(p: Pass, r: Rewrite<T>) -> bool {
    &&& is_import_pass(p) ==> r.out.decls.len() == 0 && r.out.exports.len() == 0
    &&& !is_import_pass(p) ==> r.out.imports.len() == 0 && !r.fatal
    &&& p != Pass::ExportDefaultObject ==> r.out.warnings.len() == 0
    &&& r.out.default_export is Deferred ==> p == Pass::ModuleExportsIdent
    &&& r.out.default_export is Found ==> {
        ||| p == Pass::ModuleExportsIdent && r.out.default_export->Found_0 is Named
        ||| p == Pass::ModuleDefaultExport && r.out.default_export->Found_0 is Value
    }
    &&& forall|i: int|
        0 <= i < r.out.exports.len() ==> !((#[trigger] r.out.exports[i]) is ExportDefault)
}

/// Pass `p` on the sub-trees of a call keeps to its frame.
pub proof fn lemma_frame_call(p: Pass, x: CallExprView, n: nat)
    ensures
        in_frame(p, rw_call(p, x, n)),
    decreases x, 0nat,
{
    lemma_frame_expr(p, *x.callee, n);
    lemma_frame_exprs(p, x.args, n + rw_expr(p, *x.callee, n).out.issued());
}

/// Pass `p` on the sub-trees of a member access keeps to its frame.
pub proof fn lemma_frame_member(p: Pass, x: MemberExprView, n: nat)
    ensures
        in_frame(p, rw_member(p, x, n)),
    decreases x, 0nat,
{
    lemma_frame_expr(p, *x.obj, n);
    lemma_frame_key(p, x.prop, n + rw_expr(p, *x.obj, n).out.issued());
}

/// Pass `p` on the sub-trees of an assignment keeps to its frame.
pub proof fn lemma_frame_assign(p: Pass, x: AssignExprView, n: nat)
    ensures
        in_frame(p, rw_assign(p, x, n)),
    decreases x, 0nat,
{
    lemma_frame_pat(p, x.left, n);
    lemma_frame_expr(p, *x.right, n + rw_pat(p, x.left, n).out.issued());
}

/// Pass `p` on the sub-trees of an expression keeps to its frame.
pub proof fn lemma_frame_children(p: Pass, x: ExprView, n: nat)
    ensures
        in_frame(p, rw_children(p, x, n)),
    decreases x, 0nat,
{
    match x {
        ExprView::Ident(_) => {},
        ExprView::Str(_) => {},
        ExprView::Call(c) => {
            lemma_frame_call(p, c, n);
        },
        ExprView::Member(m) => {
            lemma_frame_member(p, m, n);
        },
        ExprView::Assign(a) => {
            lemma_frame_assign(p, a, n);
        },
        ExprView::Object(props) => {
            lemma_frame_props(p, props, n);
        },
        ExprView::Other(o) => {
            lemma_frame_other(p, o, n);
        },
    }
}

/// Pass `p` on an expression keeps to its frame.
pub proof fn lemma_frame_expr(p: Pass, x: ExprView, n: nat)
    ensures
        in_frame(p, rw_expr(p, x, n)),
    decreases x, 1nat,
{
    lemma_frame_children(p, x, n);
    reveal(on_expr);
}

/// Pass `p` on the arguments of a call keeps to its frame.
pub proof fn lemma_frame_exprs(p: Pass, x: Seq<ExprView>, n: nat)
    ensures
        in_frame(p, rw_exprs(p, x, n)),
    decreases x, 0nat,
{
    if x.len() > 0 {
        lemma_frame_exprs(p, x.drop_last(), n);
        lemma_frame_expr(p, x.last(), n + rw_exprs(p, x.drop_last(), n).out.issued());
    }
}

/// Pass `p` on an expression that may be absent keeps to its frame.
pub proof fn lemma_frame_opt_expr(p: Pass, x: Option<ExprView>, n: nat)
    ensures
        in_frame(p, rw_opt_expr(p, x, n)),
    decreases x, 0nat,
{
    match x {
        Some(e) => {
            lemma_frame_expr(p, e, n);
        },
        None => {},
    }
}

/// Pass `p` on a key keeps to its frame.
pub proof fn lemma_frame_key(p: Pass, x: KeyView, n: nat)
    ensures
        in_frame(p, rw_key(p, x, n)),
    decreases x, 0nat,
{
    match x {
        KeyView::Ident(_) => {},
        KeyView::Str(_) => {},
        KeyView::Computed(e) => {
            lemma_frame_expr(p, *e, n);
        },
        KeyView::Other(o) => {
            lemma_frame_other(p, o, n);
        },
    }
}

/// Pass `p` on a property of an object literal keeps to its frame.
pub proof fn lemma_frame_prop(p: Pass, x: PropView, n: nat)
    ensures
        in_frame(p, rw_prop(p, x, n)),
    decreases x, 0nat,
{
    match x {
        PropView::Shorthand(_) => {},
        PropView::KeyValue { key, value } => {
            lemma_frame_key(p, key, n);
            lemma_frame_expr(p, value, n + rw_key(p, key, n).out.issued());
        },
        PropView::Other(o) => {
            lemma_frame_other(p, o, n);
        },
    }
}

/// Pass `p` on the properties of an object literal keeps to its frame.
pub proof fn lemma_frame_props(p: Pass, x: Seq<PropView>, n: nat)
    ensures
        in_frame(p, rw_props(p, x, n)),
    decreases x, 0nat,
{
    if x.len() > 0 {
        lemma_frame_props(p, x.drop_last(), n);
        lemma_frame_prop(p, x.last(), n + rw_props(p, x.drop_last(), n).out.issued());
    }
}

/// Pass `p` on a pattern keeps to its frame.
pub proof fn lemma_frame_pat(p: Pass, x: PatView, n: nat)
    ensures
        in_frame(p, rw_pat(p, x, n)),
    decreases x, 0nat,
{
    match x {
        PatView::Ident(_) => {},
        PatView::Object(props) => {
            lemma_frame_pat_props(p, props, n);
        },
        PatView::Expr(e) => {
            lemma_frame_expr(p, *e, n);
        },
        PatView::Other(o) => {
            lemma_frame_other(p, o, n);
        },
    }
}

/// Pass `p` on a property of an object pattern keeps to its frame.
pub proof fn lemma_frame_pat_prop(p: Pass, x: ObjectPatPropView, n: nat)
    ensures
        in_frame(p, rw_pat_prop(p, x, n)),
    decreases x, 0nat,
{
    match x {
        ObjectPatPropView::Assign { name, default_value } => {
            lemma_frame_opt_expr(p, default_value, n);
        },
        ObjectPatPropView::KeyValue { key, value } => {
            lemma_frame_key(p, key, n);
            lemma_frame_pat(p, value, n + rw_key(p, key, n).out.issued());
        },
        ObjectPatPropView::Other(o) => {
            lemma_frame_other(p, o, n);
        },
    }
}

/// Pass `p` on the properties of an object pattern keeps to its frame.
pub proof fn lemma_frame_pat_props(p: Pass, x: Seq<ObjectPatPropView>, n: nat)
    ensures
        in_frame(p, rw_pat_props(p, x, n)),
    decreases x, 0nat,
{
    if x.len() > 0 {
        lemma_frame_pat_props(p, x.drop_last(), n);
        lemma_frame_pat_prop(p, x.last(), n + rw_pat_props(p, x.drop_last(), n).out.issued());
    }
}

/// Pass `p` on uninterpreted syntax keeps to its frame.
pub proof fn lemma_frame_other(p: Pass, x: OtherView, n: nat)
    ensures
        in_frame(p, rw_other(p, x, n)),
    decreases x, 0nat,
{
    lemma_frame_parts(p, x.parts, n);
}

/// Pass `p` on a sub-tree of uninterpreted syntax keeps to its frame.
pub proof fn lemma_frame_part(p: Pass, x: PartView, n: nat)
    ensures
        in_frame(p, rw_part(p, x, n)),
    decreases x, 0nat,
{
    match x {
        PartView::Expr(e) => {
            lemma_frame_expr(p, e, n);
        },
        PartView::Pat(q) => {
            lemma_frame_pat(p, q, n);
        },
        PartView::Stmt(s) => {
            lemma_frame_stmt(p, s, n);
        },
        PartView::Block(b) => {
            lemma_frame_stmts(p, b, n);
        },
    }
}

/// Pass `p` on the sub-trees of uninterpreted syntax keeps to its frame.
pub proof fn lemma_frame_parts(p: Pass, x: Seq<PartView>, n: nat)
    ensures
        in_frame(p, rw_parts(p, x, n)),
    decreases x, 0nat,
{
    if x.len() > 0 {
        lemma_frame_parts(p, x.drop_last(), n);
        lemma_frame_part(p, x.last(), n + rw_parts(p, x.drop_last(), n).out.issued());
    }
}

/// Pass `p` on a declarator keeps to its frame.
pub proof fn lemma_frame_declarator(p: Pass, x: VarDeclaratorView, n: nat)
    ensures
        in_frame(p, rw_declarator(p, x, n)),
    decreases x, 0nat,
{
    lemma_frame_pat(p, x.name, n);
    lemma_frame_opt_expr(p, x.init, n + rw_pat(p, x.name, n).out.issued());
    reveal(on_declarator);
}

/// Pass `p` on the declarators of a declaration keeps to its frame.
pub proof fn lemma_frame_declarators(p: Pass, x: Seq<VarDeclaratorView>, n: nat)
    ensures
        in_frame(p, rw_declarators(p, x, n)),
    decreases x, 0nat,
{
    if x.len() > 0 {
        lemma_frame_declarators(p, x.drop_last(), n);
        lemma_frame_declarator(p, x.last(), n + rw_declarators(p, x.drop_last(), n).out.issued());
    }
}

/// Pass `p` on a statement keeps to its frame.
pub proof fn lemma_frame_stmt(p: Pass, x: StmtView, n: nat)
    ensures
        in_frame(p, rw_stmt(p, x, n)),
    decreases x, 0nat,
{
    match x {
        StmtView::Empty => {},
        StmtView::Expr(e) => {
            lemma_frame_expr(p, e, n);
            reveal(on_expr_stmt);
        },
        StmtView::Var(d) => {
            lemma_frame_declarators(p, d.decls, n);
        },
        StmtView::Other(o) => {
            lemma_frame_other(p, o, n);
        },
    }
}

/// Pass `p` on a statement list keeps to its frame.
pub proof fn lemma_frame_stmts(p: Pass, x: Seq<StmtView>, n: nat)
    ensures
        in_frame(p, rw_stmts(p, x, n)),
    decreases x, 0nat,
{
    if x.len() > 0 {
        lemma_frame_stmts(p, x.drop_last(), n);
        lemma_frame_stmt(p, x.last(), n + rw_stmts(p, x.drop_last(), n).out.issued());
    }
}

/// Pass `p` on an item of a module keeps to its frame.
pub proof fn lemma_frame_item(p: Pass, x: ModuleItemView, n: nat)
    ensures
        in_frame(p, rw_item(p, x, n)),
{
    match x {
        ModuleItemView::Stmt(s) => {
            lemma_frame_stmt(p, s, n);
        },
        ModuleItemView::Import(_) => {},
        ModuleItemView::ExportNamed(_) => {},
        ModuleItemView::ExportDefault(e) => {
            lemma_frame_expr(p, e, n);
        },
        ModuleItemView::ExportConst { name, init } => {
            lemma_frame_expr(p, init, n);
        },
        ModuleItemView::Other(o) => {
            lemma_frame_other(p, o, n);
        },
    }
}

/// Pass `p` on the items of a module keeps to its frame.
pub proof fn lemma_frame_items(p: Pass, x: Seq<ModuleItemView>, n: nat)
    ensures
        in_frame(p, rw_items(p, x, n)),
    decreases x.len(),
{
    if x.len() > 0 {
        lemma_frame_items(p, x.drop_last(), n);
        lemma_frame_item(p, x.last(), n + rw_items(p, x.drop_last(), n).out.issued());
    }
}

/// An export pass ends well on every module, and an import pass has nothing
/// to warn about.
pub proof fn law_passes_keep_to_their_frame(p: Pass, m: ModuleView)
    ensures
        !is_import_pass(p) ==> apply(p, m) is Ok,
        is_import_pass(p) ==> (apply(p, m) matches Ok(out) ==> out.warnings.len() == 0),
{
    reveal(apply);
    lemma_frame_items(p, m.body, 0);
}

/// The export passes end well on whatever the import passes have made.
pub proof fn law_exports_end_well(prev: Result<OutputView, RewriteError>)
    requires
        prev is Ok,
    ensures
        exports_of(prev) is Ok,
{
    law_passes_keep_to_their_frame(Pass::ModuleExportsIdent, prev->Ok_0.module);
    let a = followed_by(prev, Pass::ModuleExportsIdent);
    law_passes_keep_to_their_frame(Pass::ModuleExportsNamedExpr, a->Ok_0.module);
    let b = followed_by(a, Pass::ModuleExportsNamedExpr);
    law_passes_keep_to_their_frame(Pass::ExportDefaultObject, b->Ok_0.module);
    let c = followed_by(b, Pass::ExportDefaultObject);
    law_passes_keep_to_their_frame(Pass::ModuleDefaultExport, c->Ok_0.module);
}

/// The import passes have nothing to warn about.
pub proof fn law_imports_do_not_warn(m: ModuleView)
    ensures
        imports_of(untouched(m)) matches Ok(out) ==> out.warnings.len() == 0,
{
    law_passes_keep_to_their_frame(Pass::RequireStatement, m);
    let a = followed_by(untouched(m), Pass::RequireStatement);
    if a is Ok {
        law_passes_keep_to_their_frame(Pass::RequireIdent, a->Ok_0.module);
        let b = followed_by(a, Pass::RequireIdent);
        if b is Ok {
            law_passes_keep_to_their_frame(Pass::PureDestructuredRequire, b->Ok_0.module);
            let c = followed_by(b, Pass::PureDestructuredRequire);
            if c is Ok {
                law_passes_keep_to_their_frame(Pass::RequireFallback, c->Ok_0.module);
            }
        }
    }
}

} // verus!
