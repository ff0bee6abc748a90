//! Synthetic names within one pass: numbered in the order of the matches,
//! and no two of them alike.
use crate::ast::{
    AssignExprView, CallExprView, ExprView, ImportSpecifierView, KeyView, MemberExprView,
    ModuleItemView, ModuleView, ObjectPatPropView, OtherView, PartView, PatView, PropView, StmtView,
    VarDeclaratorView,
};
use crate::frame::{
    lemma_frame_children, lemma_frame_declarators, lemma_frame_expr, lemma_frame_exprs,
    lemma_frame_items, lemma_frame_key, lemma_frame_opt_expr, lemma_frame_parts, lemma_frame_pat,
    lemma_frame_pat_props, lemma_frame_props, lemma_frame_stmts,
};
use crate::names::{law_synthetic_names_differ, synthetic_name};
use crate::traverse::{
    on_declarator, on_expr, on_expr_stmt, rw_assign, rw_call, rw_children, rw_declarator,
    rw_declarators, rw_expr, rw_exprs, rw_item, rw_items, rw_key, rw_member, rw_opt_expr, rw_other,
    rw_part, rw_parts, rw_pat, rw_pat_prop, rw_pat_props, rw_prop, rw_props, rw_stmt, rw_stmts,
};
use crate::visitors::{expand_object, exported_name, Pass, PendingView, Rewrite};
use vstd::prelude::*;

verus! {

/// `name` is the synthetic name with the counter `k`, of some prefix.
pub open spec fn numbered(name: Seq<char>, k: nat) -> bool {
    exists|prefix: Seq<char>| name == #[trigger] synthetic_name(prefix, k)
}

/// The imports that the fallback has recorded bind `_mod$<n + 1>`,
/// `_mod$<n + 2>` and so on, in the order in which they were recorded.
pub open spec fn imports_in_sequence(out: PendingView, n: nat) -> bool {
    forall|i: int|
        0 <= i < out.imports.len() ==> (#[trigger] out.imports[i]).specifiers == seq![
            ImportSpecifierView::Namespace { local: synthetic_name("_mod"@, (n + i + 1) as nat) },
        ]
}

/// The constants that the object pass has recorded bind synthetic names with
/// the counters `n + 1`, `n + 2` and so on, in the order in which they were
/// recorded.
pub open spec fn constants_in_sequence(out: PendingView, n: nat) -> bool {
    forall|j: int|
        0 <= j < out.decls.len() ==> (#[trigger] out.decls[j]).name is Ident && numbered(
            out.decls[j].name->Ident_0,
            (n + j + 1) as nat,
        )
}

/// What pass `p` has recorded carries its synthetic names in sequence, from
/// the counter `n` on.
pub open spec fn in_sequence(p: Pass, out: PendingView, n: nat) -> bool {
    &&& p == Pass::RequireFallback ==> imports_in_sequence(out, n)
    &&& p == Pass::ExportDefaultObject ==> constants_in_sequence(out, n)
}

/// A rewrite that has not been abandoned has issued its names in sequence.
pub open spec fn sequenced<T>(p: Pass, r: Rewrite<T>, n: nat) -> bool {
    !r.fatal ==> in_sequence(p, r.out, n)
}

/// Two rewrites in a row issue their names in one sequence.
pub proof fn lemma_sequence_concat(p: Pass, a: PendingView, b: PendingView, n: nat)
    requires
        in_sequence(p, a, n),
        in_sequence(p, b, n + a.issued()),
        p == Pass::RequireFallback ==> a.decls.len() == 0,
        p == Pass::ExportDefaultObject ==> a.imports.len() == 0,
    ensures
        in_sequence(p, a.concat(b), n),
{
    let c = a.concat(b);
    if p == Pass::RequireFallback {
        assert forall|i: int| 0 <= i < c.imports.len() implies (#[trigger] c.imports[i]).specifiers
            == seq![
            ImportSpecifierView::Namespace { local: synthetic_name("_mod"@, (n + i + 1) as nat) },
        ] by {
            if i < a.imports.len() {
                assert(c.imports[i] == a.imports[i]);
            } else {
                assert(c.imports[i] == b.imports[i - a.imports.len()]);
            }
        }
    }
    if p == Pass::ExportDefaultObject {
        assert forall|j: int| 0 <= j < c.decls.len() implies (#[trigger] c.decls[j]).name is Ident
            && numbered(c.decls[j].name->Ident_0, (n + j + 1) as nat) by {
            if j < a.decls.len() {
                assert(c.decls[j] == a.decls[j]);
            } else {
                assert(c.decls[j] == b.decls[j - a.decls.len()]);
            }
        }
    }
}

/// The constants of an expansion carry their names in sequence.
proof fn lemma_expansion_in_sequence(props: Seq<PropView>, n: nat)
    ensures
        forall|j: int|
            0 <= j < expand_object(props, n).decls.len() ==> (#[trigger] expand_object(
                props,
                n,
            ).decls[j]).name is Ident && numbered(
                expand_object(props, n).decls[j].name->Ident_0,
                (n + j + 1) as nat,
            ),
    decreases props.len(),
{
    if props.len() > 0 {
        let prev = expand_object(props.drop_last(), n);
        let now = expand_object(props, n);
        lemma_expansion_in_sequence(props.drop_last(), n);
        assert forall|j: int| 0 <= j < now.decls.len() implies (#[trigger] now.decls[j]).name
            is Ident && numbered(now.decls[j].name->Ident_0, (n + j + 1) as nat) by {
            if j < prev.decls.len() {
                assert(now.decls[j] == prev.decls[j]);
            } else {
                let name = now.decls[j].name->Ident_0;
                let key = exported_name(props.last())->Some_0;
                assert(name == synthetic_name("_"@ + key, (n + j + 1) as nat));
            }
        }
    }
}

/// The rule for an expression issues its name in sequence.
proof fn lemma_sequence_on_expr(p: Pass, e: ExprView, n: nat)
    ensures
        sequenced(p, on_expr(p, e, n), n),
{
    reveal(on_expr);
}

/// The rule for a declarator issues no name.
proof fn lemma_sequence_on_declarator(p: Pass, d: VarDeclaratorView, n: nat)
    ensures
        sequenced(p, on_declarator(p, d), n),
{
    reveal(on_declarator);
}

/// The rule for an expression statement issues its names in sequence.
proof fn lemma_sequence_on_expr_stmt(p: Pass, e: ExprView, n: nat)
    ensures
        sequenced(p, on_expr_stmt(p, e, n), n),
{
    reveal(on_expr_stmt);
    match e {
        ExprView::Assign(a) => {
            match *a.right {
                ExprView::Object(props) => {
                    lemma_expansion_in_sequence(props, n);
                },
                _ => {},
            }
        },
        _ => {},
    }
}

/// Pass `p` on the sub-trees of a call issues its names in sequence.
pub proof fn lemma_sequence_call(p: Pass, x: CallExprView, n: nat)
    ensures
        sequenced(p, rw_call(p, x, n), n),
    decreases x, 0nat,
{
    let first = rw_expr(p, *x.callee, n);
    let second = rw_exprs(p, x.args, n + first.out.issued());
    lemma_sequence_expr(p, *x.callee, n);
    lemma_sequence_exprs(p, x.args, n + first.out.issued());
    lemma_frame_expr(p, *x.callee, n);
    if !first.fatal && !second.fatal {
        lemma_sequence_concat(p, first.out, second.out, n);
    }
}

/// Pass `p` on the sub-trees of a member access issues its names in sequence.
pub proof fn lemma_sequence_member(p: Pass, x: MemberExprView, n: nat)
    ensures
        sequenced(p, rw_member(p, x, n), n),
    decreases x, 0nat,
{
    let first = rw_expr(p, *x.obj, n);
    let second = rw_key(p, x.prop, n + first.out.issued());
    lemma_sequence_expr(p, *x.obj, n);
    lemma_sequence_key(p, x.prop, n + first.out.issued());
    lemma_frame_expr(p, *x.obj, n);
    if !first.fatal && !second.fatal {
        lemma_sequence_concat(p, first.out, second.out, n);
    }
}

/// Pass `p` on the sub-trees of an assignment issues its names in sequence.
pub proof fn lemma_sequence_assign(p: Pass, x: AssignExprView, n: nat)
    ensures
        sequenced(p, rw_assign(p, x, n), n),
    decreases x, 0nat,
{
    let first = rw_pat(p, x.left, n);
    let second = rw_expr(p, *x.right, n + first.out.issued());
    lemma_sequence_pat(p, x.left, n);
    lemma_sequence_expr(p, *x.right, n + first.out.issued());
    lemma_frame_pat(p, x.left, n);
    if !first.fatal && !second.fatal {
        lemma_sequence_concat(p, first.out, second.out, n);
    }
}

/// Pass `p` on the sub-trees of an expression issues its names in sequence.
pub proof fn lemma_sequence_children(p: Pass, x: ExprView, n: nat)
    ensures
        sequenced(p, rw_children(p, x, n), n),
    decreases x, 0nat,
{
    match x {
        ExprView::Ident(_) => {},
        ExprView::Str(_) => {},
        ExprView::Call(c) => {
            lemma_sequence_call(p, c, n);
        },
        ExprView::Member(m) => {
            lemma_sequence_member(p, m, n);
        },
        ExprView::Assign(a) => {
            lemma_sequence_assign(p, a, n);
        },
        ExprView::Object(props) => {
            lemma_sequence_props(p, props, n);
        },
        ExprView::Other(o) => {
            lemma_sequence_other(p, o, n);
        },
    }
}

/// Pass `p` on an expression issues its names in sequence.
pub proof fn lemma_sequence_expr(p: Pass, x: ExprView, n: nat)
    ensures
        sequenced(p, rw_expr(p, x, n), n),
    decreases x, 1nat,
{
    let inner = rw_children(p, x, n);
    let rule = on_expr(p, inner.node, n + inner.out.issued());
    lemma_sequence_children(p, x, n);
    lemma_frame_children(p, x, n);
    lemma_sequence_on_expr(p, inner.node, n + inner.out.issued());
    if !inner.fatal && !rule.fatal {
        lemma_sequence_concat(p, inner.out, rule.out, n);
    }
}

/// Pass `p` on the arguments of a call issues its names in sequence.
pub proof fn lemma_sequence_exprs(p: Pass, x: Seq<ExprView>, n: nat)
    ensures
        sequenced(p, rw_exprs(p, x, n), n),
    decreases x, 0nat,
{
    if x.len() > 0 {
        let front = rw_exprs(p, x.drop_last(), n);
        let last = rw_expr(p, x.last(), n + front.out.issued());
        lemma_sequence_exprs(p, x.drop_last(), n);
        lemma_sequence_expr(p, x.last(), n + front.out.issued());
        lemma_frame_exprs(p, x.drop_last(), n);
        if !front.fatal && !last.fatal {
            lemma_sequence_concat(p, front.out, last.out, n);
        }
    }
}

/// Pass `p` on an expression that may be absent issues its names in sequence.
pub proof fn lemma_sequence_opt_expr(p: Pass, x: Option<ExprView>, n: nat)
    ensures
        sequenced(p, rw_opt_expr(p, x, n), n),
    decreases x, 0nat,
{
    match x {
        Some(e) => {
            lemma_sequence_expr(p, e, n);
        },
        None => {},
    }
}

/// Pass `p` on a key issues its names in sequence.
pub proof fn lemma_sequence_key(p: Pass, x: KeyView, n: nat)
    ensures
        sequenced(p, rw_key(p, x, n), n),
    decreases x, 0nat,
{
    match x {
        KeyView::Ident(_) => {},
        KeyView::Str(_) => {},
        KeyView::Computed(e) => {
            lemma_sequence_expr(p, *e, n);
        },
        KeyView::Other(o) => {
            lemma_sequence_other(p, o, n);
        },
    }
}

/// Pass `p` on a property of an object literal issues its names in sequence.
pub proof fn lemma_sequence_prop(p: Pass, x: PropView, n: nat)
    ensures
        sequenced(p, rw_prop(p, x, n), n),
    decreases x, 0nat,
{
    match x {
        PropView::Shorthand(_) => {},
        PropView::KeyValue { key, value } => {
            let first = rw_key(p, key, n);
            let second = rw_expr(p, value, n + first.out.issued());
            lemma_sequence_key(p, key, n);
            lemma_sequence_expr(p, value, n + first.out.issued());
            lemma_frame_key(p, key, n);
            if !first.fatal && !second.fatal {
                lemma_sequence_concat(p, first.out, second.out, n);
            }
        },
        PropView::Other(o) => {
            lemma_sequence_other(p, o, n);
        },
    }
}

/// Pass `p` on the properties of an object literal issues its names in sequence.
pub proof fn lemma_sequence_props(p: Pass, x: Seq<PropView>, n: nat)
    ensures
        sequenced(p, rw_props(p, x, n), n),
    decreases x, 0nat,
{
    if x.len() > 0 {
        let front = rw_props(p, x.drop_last(), n);
        let last = rw_prop(p, x.last(), n + front.out.issued());
        lemma_sequence_props(p, x.drop_last(), n);
        lemma_sequence_prop(p, x.last(), n + front.out.issued());
        lemma_frame_props(p, x.drop_last(), n);
        if !front.fatal && !last.fatal {
            lemma_sequence_concat(p, front.out, last.out, n);
        }
    }
}

/// Pass `p` on a pattern issues its names in sequence.
pub proof fn lemma_sequence_pat(p: Pass, x: PatView, n: nat)
    ensures
        sequenced(p, rw_pat(p, x, n), n),
    decreases x, 0nat,
{
    match x {
        PatView::Ident(_) => {},
        PatView::Object(props) => {
            lemma_sequence_pat_props(p, props, n);
        },
        PatView::Expr(e) => {
            lemma_sequence_expr(p, *e, n);
        },
        PatView::Other(o) => {
            lemma_sequence_other(p, o, n);
        },
    }
}

/// Pass `p` on a property of an object pattern issues its names in sequence.
pub proof fn lemma_sequence_pat_prop(p: Pass, x: ObjectPatPropView, n: nat)
    ensures
        sequenced(p, rw_pat_prop(p, x, n), n),
    decreases x, 0nat,
{
    match x {
        ObjectPatPropView::Assign { name, default_value } => {
            lemma_sequence_opt_expr(p, default_value, n);
        },
        ObjectPatPropView::KeyValue { key, value } => {
            let first = rw_key(p, key, n);
            let second = rw_pat(p, value, n + first.out.issued());
            lemma_sequence_key(p, key, n);
            lemma_sequence_pat(p, value, n + first.out.issued());
            lemma_frame_key(p, key, n);
            if !first.fatal && !second.fatal {
                lemma_sequence_concat(p, first.out, second.out, n);
            }
        },
        ObjectPatPropView::Other(o) => {
            lemma_sequence_other(p, o, n);
        },
    }
}

/// Pass `p` on the properties of an object pattern issues its names in sequence.
pub proof fn lemma_sequence_pat_props(p: Pass, x: Seq<ObjectPatPropView>, n: nat)
    ensures
        sequenced(p, rw_pat_props(p, x, n), n),
    decreases x, 0nat,
{
    if x.len() > 0 {
        let front = rw_pat_props(p, x.drop_last(), n);
        let last = rw_pat_prop(p, x.last(), n + front.out.issued());
        lemma_sequence_pat_props(p, x.drop_last(), n);
        lemma_sequence_pat_prop(p, x.last(), n + front.out.issued());
        lemma_frame_pat_props(p, x.drop_last(), n);
        if !front.fatal && !last.fatal {
            lemma_sequence_concat(p, front.out, last.out, n);
        }
    }
}

/// Pass `p` on uninterpreted syntax issues its names in sequence.
pub proof fn lemma_sequence_other(p: Pass, x: OtherView, n: nat)
    ensures
        sequenced(p, rw_other(p, x, n), n),
    decreases x, 0nat,
{
    lemma_sequence_parts(p, x.parts, n);
}

/// Pass `p` on a sub-tree of uninterpreted syntax issues its names in sequence.
pub proof fn lemma_sequence_part(p: Pass, x: PartView, n: nat)
    ensures
        sequenced(p, rw_part(p, x, n), n),
    decreases x, 0nat,
{
    match x {
        PartView::Expr(e) => {
            lemma_sequence_expr(p, e, n);
        },
        PartView::Pat(q) => {
            lemma_sequence_pat(p, q, n);
        },
        PartView::Stmt(s) => {
            lemma_sequence_stmt(p, s, n);
        },
        PartView::Block(b) => {
            lemma_sequence_stmts(p, b, n);
        },
    }
}

/// Pass `p` on the sub-trees of uninterpreted syntax issues its names in sequence.
pub proof fn lemma_sequence_parts(p: Pass, x: Seq<PartView>, n: nat)
    ensures
        sequenced(p, rw_parts(p, x, n), n),
    decreases x, 0nat,
{
    if x.len() > 0 {
        let front = rw_parts(p, x.drop_last(), n);
        let last = rw_part(p, x.last(), n + front.out.issued());
        lemma_sequence_parts(p, x.drop_last(), n);
        lemma_sequence_part(p, x.last(), n + front.out.issued());
        lemma_frame_parts(p, x.drop_last(), n);
        if !front.fatal && !last.fatal {
            lemma_sequence_concat(p, front.out, last.out, n);
        }
    }
}

/// Pass `p` on a declarator issues its names in sequence.
pub proof fn lemma_sequence_declarator(p: Pass, x: VarDeclaratorView, n: nat)
    ensures
        sequenced(p, rw_declarator(p, x, n), n),
    decreases x, 0nat,
{
    let name = rw_pat(p, x.name, n);
    let init = rw_opt_expr(p, x.init, n + name.out.issued());
    lemma_sequence_pat(p, x.name, n);
    lemma_sequence_opt_expr(p, x.init, n + name.out.issued());
    lemma_frame_pat(p, x.name, n);
    lemma_frame_opt_expr(p, x.init, n + name.out.issued());
    if !name.fatal && !init.fatal {
        let inner = VarDeclaratorView { name: name.node, init: init.node };
        let children = name.out.concat(init.out);
        lemma_sequence_concat(p, name.out, init.out, n);
        lemma_sequence_on_declarator(p, inner, n + children.issued());
        if !on_declarator(p, inner).fatal {
            lemma_sequence_concat(p, children, on_declarator(p, inner).out, n);
        }
    }
}

/// Pass `p` on the declarators of a declaration issues its names in sequence.
pub proof fn lemma_sequence_declarators(p: Pass, x: Seq<VarDeclaratorView>, n: nat)
    ensures
        sequenced(p, rw_declarators(p, x, n), n),
    decreases x, 0nat,
{
    if x.len() > 0 {
        let front = rw_declarators(p, x.drop_last(), n);
        let last = rw_declarator(p, x.last(), n + front.out.issued());
        lemma_sequence_declarators(p, x.drop_last(), n);
        lemma_sequence_declarator(p, x.last(), n + front.out.issued());
        lemma_frame_declarators(p, x.drop_last(), n);
        if !front.fatal && !last.fatal {
            lemma_sequence_concat(p, front.out, last.out, n);
        }
    }
}

/// Pass `p` on a statement issues its names in sequence.
pub proof fn lemma_sequence_stmt(p: Pass, x: StmtView, n: nat)
    ensures
        sequenced(p, rw_stmt(p, x, n), n),
    decreases x, 0nat,
{
    match x {
        StmtView::Empty => {},
        StmtView::Expr(e) => {
            let inner = rw_expr(p, e, n);
            let rule = on_expr_stmt(p, inner.node, n + inner.out.issued());
            lemma_sequence_expr(p, e, n);
            lemma_frame_expr(p, e, n);
            lemma_sequence_on_expr_stmt(p, inner.node, n + inner.out.issued());
            if !inner.fatal && !rule.fatal {
                lemma_sequence_concat(p, inner.out, rule.out, n);
            }
        },
        StmtView::Var(d) => {
            lemma_sequence_declarators(p, d.decls, n);
        },
        StmtView::Other(o) => {
            lemma_sequence_other(p, o, n);
        },
    }
}

/// Pass `p` on a statement list issues its names in sequence.
pub proof fn lemma_sequence_stmts(p: Pass, x: Seq<StmtView>, n: nat)
    ensures
        sequenced(p, rw_stmts(p, x, n), n),
    decreases x, 0nat,
{
    if x.len() > 0 {
        let front = rw_stmts(p, x.drop_last(), n);
        let last = rw_stmt(p, x.last(), n + front.out.issued());
        lemma_sequence_stmts(p, x.drop_last(), n);
        lemma_sequence_stmt(p, x.last(), n + front.out.issued());
        lemma_frame_stmts(p, x.drop_last(), n);
        if !front.fatal && !last.fatal {
            lemma_sequence_concat(p, front.out, last.out, n);
        }
    }
}

/// Pass `p` on an item of a module issues its names in sequence.
pub proof fn lemma_sequence_item(p: Pass, x: ModuleItemView, n: nat)
    ensures
        sequenced(p, rw_item(p, x, n), n),
{
    match x {
        ModuleItemView::Stmt(s) => {
            lemma_sequence_stmt(p, s, n);
        },
        ModuleItemView::Import(_) => {},
        ModuleItemView::ExportNamed(_) => {},
        ModuleItemView::ExportDefault(e) => {
            lemma_sequence_expr(p, e, n);
        },
        ModuleItemView::ExportConst { name, init } => {
            lemma_sequence_expr(p, init, n);
        },
        ModuleItemView::Other(o) => {
            lemma_sequence_other(p, o, n);
        },
    }
}

/// Pass `p` on the items of a module issues its names in sequence.
pub proof fn lemma_sequence_items(p: Pass, x: Seq<ModuleItemView>, n: nat)
    ensures
        sequenced(p, rw_items(p, x, n), n),
    decreases x.len(),
{
    if x.len() > 0 {
        let front = rw_items(p, x.drop_last(), n);
        let last = rw_item(p, x.last(), n + front.out.issued());
        lemma_sequence_items(p, x.drop_last(), n);
        lemma_sequence_item(p, x.last(), n + front.out.issued());
        lemma_frame_items(p, x.drop_last(), n);
        if !front.fatal && !last.fatal {
            lemma_sequence_concat(p, front.out, last.out, n);
        }
    }
}

/// The imports that the fallback pass records for a module bind `_mod$1`,
/// `_mod$2` and so on, in the order of the matches, and no two of them bind
/// the same name.
pub proof fn law_fallback_names_are_numbered_and_distinct(m: ModuleView)
    ensures
        ({
            let r = rw_items(Pass::RequireFallback, m.body, 0);
            !r.fatal ==> {
                &&& imports_in_sequence(r.out, 0)
                &&& forall|i: int, j: int|
                    0 <= i < j < r.out.imports.len() ==> r.out.imports[i].specifiers
                        != r.out.imports[j].specifiers
            }
        }),
{
    let r = rw_items(Pass::RequireFallback, m.body, 0);
    lemma_sequence_items(Pass::RequireFallback, m.body, 0);
    if !r.fatal {
        assert forall|i: int, j: int| 0 <= i < j < r.out.imports.len() implies r.out.imports[i]
            .specifiers != r.out.imports[j].specifiers by {
            law_synthetic_names_differ("_mod"@, (i + 1) as nat, "_mod"@, (j + 1) as nat);
            let a = r.out.imports[i].specifiers;
            let b = r.out.imports[j].specifiers;
            assert(a[0] == ImportSpecifierView::Namespace {
                local: synthetic_name("_mod"@, (i + 1) as nat),
            });
            assert(b[0] == ImportSpecifierView::Namespace {
                local: synthetic_name("_mod"@, (j + 1) as nat),
            });
        }
    }
}

/// The constants that the object pass hoists for a module bind synthetic
/// names with the counters 1, 2 and so on, in the order of the matches, and
/// no two of them bind the same name.
pub proof fn law_hoisted_names_are_numbered_and_distinct(m: ModuleView)
    ensures
        ({
            let r = rw_items(Pass::ExportDefaultObject, m.body, 0);
            !r.fatal ==> {
                &&& constants_in_sequence(r.out, 0)
                &&& forall|i: int, j: int|
                    0 <= i < j < r.out.decls.len() ==> r.out.decls[i].name != r.out.decls[j].name
            }
        }),
{
    let r = rw_items(Pass::ExportDefaultObject, m.body, 0);
    lemma_sequence_items(Pass::ExportDefaultObject, m.body, 0);
    if !r.fatal {
        assert forall|i: int, j: int| 0 <= i < j < r.out.decls.len() implies r.out.decls[i].name
            != r.out.decls[j].name by {
            let a = r.out.decls[i].name->Ident_0;
            let b = r.out.decls[j].name->Ident_0;
            assert(numbered(a, (i + 1) as nat));
            assert(numbered(b, (j + 1) as nat));
            let pa = choose|prefix: Seq<char>|
                a == #[trigger] synthetic_name(prefix, (i + 1) as nat);
            let pb = choose|prefix: Seq<char>|
                b == #[trigger] synthetic_name(prefix, (j + 1) as nat);
            law_synthetic_names_differ(pa, (i + 1) as nat, pb, (j + 1) as nat);
        }
    }
}

} // verus!
