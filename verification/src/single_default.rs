//! One default export: of the statements of a module that assign to
//! `module.exports`, the last one decides what the module exports by default.
use crate::ast::{ExprView, ModuleItemView, ModuleView, StmtView};
use crate::converted::{converted_item, defaults_gone};
use crate::frame::lemma_frame_items;
use crate::laws::{
    default_export_stmt, law_order_preserved, lemma_assignment_settled, lemma_idle_on_stmt,
};
use crate::settled::{lemma_settled_expr, lemma_settled_item, settled_expr};
use crate::tidy::tidy_item;
use crate::transform_cjs::{cascade, followed_by, imports_of, untouched};
use crate::traverse::{
    added_default, apply, default_items, default_warnings, flush, hoisted_items, holds_default,
    import_items, lemma_concat_empty, on_expr_stmt, rw_item, rw_items, rw_stmt, OutputView,
};
use crate::utils::{is_export_default, RewriteError};
use crate::visitors::{
    keep, single_export, DefaultExportView, DefaultFindingView, Pass, PendingView, Rewrite, Warning,
};
use vstd::prelude::*;

verus! {

/// The value that the item assigns to `module.exports`, if it is a statement
/// that does so.
pub open spec fn assigned_default(item: ModuleItemView) -> Option<ExprView> {
    match item {
        ModuleItemView::Stmt(StmtView::Expr(ExprView::Assign(a))) => if is_export_default(a) {
            Some(*a.right)
        } else {
            None
        },
        _ => None,
    }
}

/// The two passes that make a default export.
pub open spec fn makes_default(p: Pass) -> bool {
    p == Pass::ModuleExportsIdent || p == Pass::ModuleDefaultExport
}

/// Whether pass `p` takes the statement `module.exports = value;` away: the
/// identifier pass where `value` is an identifier, the last pass always.
pub open spec fn takes_default(p: Pass, value: ExprView) -> bool {
    p == Pass::ModuleDefaultExport || (p == Pass::ModuleExportsIdent && value is Ident)
}

/// What pass `p` finds in the statement `module.exports = value;`.
pub open spec fn finding_of(p: Pass, value: ExprView) -> DefaultFindingView {
    if p == Pass::ModuleDefaultExport {
        DefaultFindingView::Found(DefaultExportView::Value(value))
    } else if p == Pass::ModuleExportsIdent {
        match value {
            ExprView::Ident(name) => DefaultFindingView::Found(DefaultExportView::Named(name)),
            _ => DefaultFindingView::Deferred,
        }
    } else {
        DefaultFindingView::Unset
    }
}

/// What pass `p` finds in the last statement of `body` that assigns to
/// `module.exports`.
pub open spec fn last_finding(p: Pass, body: Seq<ModuleItemView>) -> DefaultFindingView
    decreases body.len(),
{
    if body.len() == 0 {
        DefaultFindingView::Unset
    } else {
        match assigned_default(body.last()) {
            Some(value) => finding_of(p, value),
            None => last_finding(p, body.drop_last()),
        }
    }
}

/// `body` without the assignments to `module.exports` that pass `p` takes
/// away, in the order of `body`.
pub open spec fn remaining(p: Pass, body: Seq<ModuleItemView>) -> Seq<ModuleItemView>
    decreases body.len(),
{
    if body.len() == 0 {
        Seq::empty()
    } else {
        let front = remaining(p, body.drop_last());
        match assigned_default(body.last()) {
            Some(value) => if takes_default(p, value) {
                front
            } else {
                front.push(body.last())
            },
            None => front.push(body.last()),
        }
    }
}

/// The default export that a finding stands for, if it stands for one.
pub open spec fn decided(found: DefaultFindingView) -> Option<DefaultExportView> {
    match found {
        DefaultFindingView::Found(d) => Some(d),
        _ => None,
    }
}

/// An item that either assigns a value in which no pass finds anything to
/// `module.exports`, or is nothing that a pass would change.
pub open spec fn assignment_or_settled(item: ModuleItemView) -> bool {
    match assigned_default(item) {
        Some(value) => settled_expr(value),
        None => converted_item(item, defaults_gone()) && tidy_item(item),
    }
}

/// An item that either assigns a value in which no pass finds anything to
/// `module.exports`, or is no default export and nothing that a pass would
/// change.
pub open spec fn plain_item(item: ModuleItemView) -> bool {
    assignment_or_settled(item) && item !is ExportDefault
}

/// Every item of the body is plain.
pub open spec fn plain_body(body: Seq<ModuleItemView>) -> bool {
    forall|i: int| 0 <= i < body.len() ==> plain_item(#[trigger] body[i])
}

/// A statement that assigns to `module.exports` is `module.exports = value;`.
proof fn lemma_assignment_shape(item: ModuleItemView)
    requires
        assigned_default(item) is Some,
    ensures
        item == ModuleItemView::Stmt(default_export_stmt(assigned_default(item)->Some_0)),
{
    let a = item->Stmt_0->Expr_0->Assign_0;
    let target = a.left->Expr_0;
    let m = (*target)->Member_0;
    assert(*m.obj == ExprView::Ident("module"@));
    assert(*target == ExprView::Member(m));
}

/// What a pass that makes a default export records for
/// `module.exports = value;`.
proof fn lemma_default_assignment(p: Pass, value: ExprView, n: nat)
    requires
        makes_default(p),
        settled_expr(value),
    ensures
        rw_item(p, ModuleItemView::Stmt(default_export_stmt(value)), n) == (Rewrite {
            node: ModuleItemView::Stmt(
                if takes_default(p, value) {
                    StmtView::Empty
                } else {
                    default_export_stmt(value)
                },
            ),
            out: PendingView { default_export: finding_of(p, value), ..PendingView::empty() },
            fatal: false,
        }),
{
    let s = default_export_stmt(value);
    let e = s->Expr_0;
    lemma_assignment_settled(value);
    lemma_settled_expr(p, e, n);
    let rule = on_expr_stmt(p, e, n);
    assert(rule == (Rewrite {
        node: if takes_default(p, value) {
            StmtView::Empty
        } else {
            s
        },
        out: PendingView { default_export: finding_of(p, value), ..PendingView::empty() },
        fatal: false,
    })) by {
        reveal(on_expr_stmt);
    }
    lemma_concat_empty(rule.out);
    assert(rw_stmt(p, s, n) == rule);
}

/// What a pass that makes a default export records for a body of
/// assignments to `module.exports` and of settled items: the finding of the
/// last assignment, and nothing else.
proof fn lemma_defaults_in_items(p: Pass, body: Seq<ModuleItemView>, n: nat)
    requires
        makes_default(p),
        forall|i: int| 0 <= i < body.len() ==> assignment_or_settled(#[trigger] body[i]),
    ensures
        rw_items(p, body, n) == (Rewrite {
            node: remaining(p, body),
            out: PendingView { default_export: last_finding(p, body), ..PendingView::empty() },
            fatal: false,
        }),
    decreases body.len(),
{
    if body.len() > 0 {
        let front = body.drop_last();
        assert forall|i: int| 0 <= i < front.len() implies assignment_or_settled(
            #[trigger] front[i],
        ) by {
            assert(front[i] == body[i]);
        }
        lemma_defaults_in_items(p, front, n);
        let before = rw_items(p, front, n);
        let item = body.last();
        assert(assignment_or_settled(body[body.len() - 1]));
        match assigned_default(item) {
            Some(value) => {
                lemma_assignment_shape(item);
                lemma_default_assignment(p, value, n);
                let last = rw_item(p, item, n);
                assert(before.out.concat(last.out) =~~= (PendingView {
                    default_export: last_finding(p, body),
                    ..PendingView::empty()
                }));
            },
            None => {
                lemma_settled_item(p, item, n);
                lemma_concat_empty(before.out);
            },
        }
    }
}

/// In what remains of a plain body there is no default export, and no
/// assignment to `module.exports` that the pass takes away.
proof fn lemma_remaining(p: Pass, body: Seq<ModuleItemView>)
    requires
        plain_body(body),
    ensures
        !holds_default(remaining(p, body)),
        forall|j: int|
            0 <= j < remaining(p, body).len() ==> (assigned_default(
                #[trigger] remaining(p, body)[j],
            ) matches Some(value) ==> !takes_default(p, value)),
    decreases body.len(),
{
    if body.len() > 0 {
        let front = body.drop_last();
        assert forall|i: int| 0 <= i < front.len() implies plain_item(#[trigger] front[i]) by {
            assert(front[i] == body[i]);
        }
        lemma_remaining(p, front);
        assert(plain_item(body[body.len() - 1]));
    }
}

/// Of the statements of a module that assign to `module.exports`, the last
/// one decides. In a module of such statements and of items that no pass
/// would change, none of them a default export:
///
/// the last pass takes every such statement away, leaves the other items as
/// they are and in their order, and where there was such a statement, ends
/// the module with exactly one `export default`, that of the last of them,
/// and warns once;
///
/// the identifier pass takes away those that assign an identifier, and where
/// the last such statement assigns the identifier `name`, ends the module
/// with `export { name };` and `export default name;`; where it assigns
/// anything else, the pass adds nothing; it never warns.
pub proof fn law_last_default_assignment_decides(p: Pass, body: Seq<ModuleItemView>)
    requires
        makes_default(p),
        plain_body(body),
    ensures
        apply(p, ModuleView { body }) == Ok::<OutputView, RewriteError>(
            OutputView {
                module: ModuleView {
                    body: remaining(p, body) + default_items(decided(last_finding(p, body))),
                },
                warnings: default_warnings(decided(last_finding(p, body))),
            },
        ),
        !holds_default(remaining(p, body)),
        forall|j: int|
            0 <= j < remaining(p, body).len() ==> (assigned_default(
                #[trigger] remaining(p, body)[j],
            ) matches Some(value) ==> !takes_default(p, value)),
{
    reveal(apply);
    lemma_defaults_in_items(p, body, 0);
    lemma_remaining(p, body);
    let r = rw_items(p, body, 0);
    assert(flush(r.node, r.out) =~= remaining(p, body) + default_items(
        decided(last_finding(p, body)),
    ));
    assert(r.out.warnings + default_warnings(decided(last_finding(p, body)))
        =~= default_warnings(decided(last_finding(p, body))));
}

/// Of two assignments to `module.exports`, the second stays: the last pass
/// makes `export default second;` of `module.exports = first;` and
/// `module.exports = second;`, and warns once.
pub proof fn law_second_default_assignment_stays(first: ExprView, second: ExprView)
    requires
        settled_expr(first),
        settled_expr(second),
    ensures
        apply(
            Pass::ModuleDefaultExport,
            ModuleView {
                body: seq![
                    ModuleItemView::Stmt(default_export_stmt(first)),
                    ModuleItemView::Stmt(default_export_stmt(second)),
                ],
            },
        ) == Ok::<OutputView, RewriteError>(
            OutputView {
                module: ModuleView { body: seq![ModuleItemView::ExportDefault(second)] },
                warnings: seq![Warning::OpaqueDefaultExport],
            },
        ),
{
    let p = Pass::ModuleDefaultExport;
    let body = seq![
        ModuleItemView::Stmt(default_export_stmt(first)),
        ModuleItemView::Stmt(default_export_stmt(second)),
    ];
    reveal_strlit("module");
    reveal_strlit("exports");
    assert(assigned_default(body[0]) == Some(first));
    assert(assigned_default(body[1]) == Some(second));
    law_last_default_assignment_decides(p, body);
    let front = body.drop_last();
    assert(front.drop_last() =~= Seq::<ModuleItemView>::empty());
    assert(front.last() == body[0]);
    reveal_with_fuel(remaining, 3);
    assert(remaining(p, body) =~= Seq::<ModuleItemView>::empty());
    assert(remaining(p, body) + seq![ModuleItemView::ExportDefault(second)] =~= seq![
        ModuleItemView::ExportDefault(second),
    ]);
}

/// The number of default exports at the top level of a module body.
pub open spec fn default_exports(body: Seq<ModuleItemView>) -> nat
    decreases body.len(),
{
    if body.len() == 0 {
        0
    } else if body.last() is ExportDefault {
        default_exports(body.drop_last()) + 1
    } else {
        default_exports(body.drop_last())
    }
}

/// The default exports of two parts of a body add up.
proof fn lemma_default_exports_add(a: Seq<ModuleItemView>, b: Seq<ModuleItemView>)
    ensures
        default_exports(a + b) == default_exports(a) + default_exports(b),
    decreases b.len(),
{
    if b.len() == 0 {
        assert(a + b =~= a);
    } else {
        assert((a + b).drop_last() =~= a + b.drop_last());
        assert((a + b).last() == b.last());
        lemma_default_exports_add(a, b.drop_last());
    }
}

/// A body holds a default export exactly if it counts one.
proof fn lemma_default_exports_held(body: Seq<ModuleItemView>)
    ensures
        holds_default(body) <==> default_exports(body) > 0,
    decreases body.len(),
{
    if body.len() > 0 {
        let front = body.drop_last();
        lemma_default_exports_held(front);
        if holds_default(body) && !(body.last() is ExportDefault) {
            let i = choose|i: int| 0 <= i < body.len() && (#[trigger] body[i]) is ExportDefault;
            assert(front[i] is ExportDefault);
        }
        if default_exports(body) > 0 {
            if body.last() is ExportDefault {
                assert(body[body.len() - 1] is ExportDefault);
            } else {
                let i = choose|i: int|
                    0 <= i < front.len() && (#[trigger] front[i]) is ExportDefault;
                assert(body[i] is ExportDefault);
            }
        }
    }
}

/// A pass rewrites a default export in its place: the rewritten body holds
/// as many default exports as the body.
proof fn lemma_default_exports_kept(p: Pass, body: Seq<ModuleItemView>, n: nat)
    ensures
        default_exports(rw_items(p, body, n).node) == default_exports(body),
    decreases body.len(),
{
    if body.len() > 0 {
        lemma_default_exports_kept(p, body.drop_last(), n);
        let front = rw_items(p, body.drop_last(), n);
        let last = rw_item(p, body.last(), n + front.out.issued());
        assert(last.node is ExportDefault <==> body.last() is ExportDefault);
        if last.node != ModuleItemView::Stmt(StmtView::Empty) {
            assert(front.node.push(last.node).drop_last() =~= front.node);
        }
    }
}

/// The default exports of what a pass hands on: those of the module, and one
/// more where the pass adds the one that it has found.
pub proof fn lemma_default_exports_after(p: Pass, m: ModuleView)
    ensures
        apply(p, m) matches Ok(out) ==> {
            let r = rw_items(p, m.body, 0);
            default_exports(out.module.body) == default_exports(m.body) + if added_default(
                r.node,
                r.out.default_export,
            ) is Some {
                1nat
            } else {
                0nat
            }
        },
        apply(p, m) is Ok ==> (added_default(
            rw_items(p, m.body, 0).node,
            rw_items(p, m.body, 0).out.default_export,
        ) is Some ==> default_exports(m.body) == 0),
{
    reveal(apply);
    let r = rw_items(p, m.body, 0);
    if !r.fatal {
        lemma_frame_items(p, m.body, 0);
        lemma_default_exports_kept(p, m.body, 0);
        lemma_default_exports_held(r.node);
        let imports = import_items(r.out.imports);
        let hoisted = hoisted_items(r.out.decls);
        let added = default_items(added_default(r.node, r.out.default_export));
        lemma_default_exports_held(imports);
        lemma_default_exports_held(hoisted);
        lemma_default_exports_held(r.out.exports);
        lemma_default_exports_add(imports, r.node);
        lemma_default_exports_add(imports + r.node, hoisted);
        lemma_default_exports_add(imports + r.node + hoisted, r.out.exports);
        lemma_default_exports_add(imports + r.node + hoisted + r.out.exports, added);
        reveal_with_fuel(default_exports, 3);
        match added_default(r.node, r.out.default_export) {
            None => {
                assert(default_exports(added) == 0);
            },
            Some(DefaultExportView::Value(e)) => {
                assert(added.drop_last() =~= Seq::<ModuleItemView>::empty());
                assert(default_exports(added) == 1);
            },
            Some(DefaultExportView::Named(name)) => {
                assert(added.drop_last() =~= seq![single_export(name, None)]);
                assert(added.drop_last().drop_last() =~= Seq::<ModuleItemView>::empty());
                assert(default_exports(added) == 1);
            },
        }
    }
}

/// A pass makes no second default export: a module that holds a default
/// export comes back with as many as it had, and a module that holds none
/// with one at most.
pub proof fn law_pass_makes_no_second_default(p: Pass, m: ModuleView)
    ensures
        apply(p, m) matches Ok(out) ==> {
            &&& default_exports(m.body) > 0 ==> default_exports(out.module.body)
                == default_exports(m.body)
            &&& default_exports(m.body) == 0 ==> default_exports(out.module.body) <= 1
        },
{
    lemma_default_exports_after(p, m);
}

/// What `prev` hands on holds one default export at most.
pub open spec fn one_default_at_most(prev: Result<OutputView, RewriteError>) -> bool {
    prev matches Ok(out) ==> default_exports(out.module.body) <= 1
}

/// One default export at most stays one default export at most after a pass.
proof fn lemma_one_default_after(prev: Result<OutputView, RewriteError>, p: Pass)
    requires
        one_default_at_most(prev),
    ensures
        one_default_at_most(followed_by(prev, p)),
{
    if prev is Ok {
        law_pass_makes_no_second_default(p, prev->Ok_0.module);
    }
}

/// A module has one default export: the cascade hands on a module with one
/// default export at most, however many statements of the module that it
/// was given assign to `module.exports`, as long as that module held one
/// default export at most.
pub proof fn law_cascade_makes_one_default_at_most(m: ModuleView)
    requires
        default_exports(m.body) <= 1,
    ensures
        cascade(m) matches Ok(out) ==> default_exports(out.module.body) <= 1,
{
    let a = followed_by(untouched(m), Pass::RequireStatement);
    lemma_one_default_after(untouched(m), Pass::RequireStatement);
    let b = followed_by(a, Pass::RequireIdent);
    lemma_one_default_after(a, Pass::RequireIdent);
    let c = followed_by(b, Pass::PureDestructuredRequire);
    lemma_one_default_after(b, Pass::PureDestructuredRequire);
    let d = followed_by(c, Pass::RequireFallback);
    lemma_one_default_after(c, Pass::RequireFallback);
    let e = followed_by(d, Pass::ModuleExportsIdent);
    lemma_one_default_after(d, Pass::ModuleExportsIdent);
    let f = followed_by(e, Pass::ModuleExportsNamedExpr);
    lemma_one_default_after(e, Pass::ModuleExportsNamedExpr);
    let g = followed_by(f, Pass::ExportDefaultObject);
    lemma_one_default_after(f, Pass::ExportDefaultObject);
    lemma_one_default_after(g, Pass::ModuleDefaultExport);
}

/// An item of a module whose default export the cascade decides by the last
/// assignment to `module.exports`: a plain item that assigns no object
/// literal to it.
pub open spec fn waiting_item(item: ModuleItemView) -> bool {
    &&& plain_item(item)
    &&& assigned_default(item) matches Some(value) ==> value !is Object
}

/// Every item of the body is one.
pub open spec fn waiting_body(body: Seq<ModuleItemView>) -> bool {
    forall|i: int| 0 <= i < body.len() ==> waiting_item(#[trigger] body[i])
}

/// The default export that the cascade makes for the body: that of the last
/// statement that assigns to `module.exports`, by name where it assigns an
/// identifier, and by value where it assigns anything else.
pub open spec fn chosen_default(body: Seq<ModuleItemView>) -> Option<DefaultExportView> {
    match last_finding(Pass::ModuleExportsIdent, body) {
        DefaultFindingView::Found(d) => Some(d),
        DefaultFindingView::Deferred => decided(last_finding(Pass::ModuleDefaultExport, body)),
        DefaultFindingView::Unset => None,
    }
}

/// Pass `p` changes no item of the body and finds nothing in it.
pub open spec fn left_alone(p: Pass, body: Seq<ModuleItemView>) -> bool {
    forall|i: int|
        0 <= i < body.len() ==> #[trigger] rw_item(p, body[i], 0) == keep(body[i]) && body[i]
            != ModuleItemView::Stmt(StmtView::Empty)
}

/// A pass that changes no item of a body changes nothing of the body.
proof fn lemma_left_alone(p: Pass, body: Seq<ModuleItemView>)
    requires
        left_alone(p, body),
    ensures
        rw_items(p, body, 0) == keep(body),
    decreases body.len(),
{
    if body.len() > 0 {
        let front = body.drop_last();
        assert forall|i: int| 0 <= i < front.len() implies #[trigger] rw_item(p, front[i], 0)
            == keep(front[i]) && front[i] != ModuleItemView::Stmt(StmtView::Empty) by {
            assert(front[i] == body[i]);
            assert(rw_item(p, body[i], 0) == keep(body[i]));
        }
        lemma_left_alone(p, front);
        assert(rw_item(p, body[body.len() - 1], 0) == keep(body[body.len() - 1]));
        lemma_concat_empty(PendingView::empty());
        assert(front.push(body.last()) =~= body);
    } else {
        assert(body =~= Seq::<ModuleItemView>::empty());
    }
}

/// A pass that changes no item of a module hands on what it was given.
proof fn lemma_pass_leaves_alone(prev: Result<OutputView, RewriteError>, p: Pass)
    requires
        prev is Ok,
        left_alone(p, prev->Ok_0.module.body),
    ensures
        followed_by(prev, p) == prev,
{
    reveal(apply);
    let body = prev->Ok_0.module.body;
    lemma_left_alone(p, body);
    assert(flush(body, PendingView::empty()) =~= body);
    assert(prev->Ok_0.warnings + Seq::<Warning>::empty() =~= prev->Ok_0.warnings);
}

/// A pass that makes no default export has no rule for
/// `module.exports = value;` where `value` is no object literal.
proof fn lemma_rules_skip_assignment(p: Pass, value: ExprView)
    requires
        !makes_default(p),
        value !is Object,
    ensures
        on_expr_stmt(p, default_export_stmt(value)->Expr_0, 0) == keep(default_export_stmt(value)),
{
    reveal(on_expr_stmt);
    reveal_strlit("module");
    reveal_strlit("exports");
    assert("module"@ != "exports"@) by {
        assert("module"@[0] == 'm');
        assert("exports"@[0] == 'e');
    }
}

/// A pass that makes no default export leaves a waiting item alone.
proof fn lemma_waiting_item_left_alone(p: Pass, item: ModuleItemView)
    requires
        !makes_default(p),
        waiting_item(item),
    ensures
        rw_item(p, item, 0) == keep(item),
        item != ModuleItemView::Stmt(StmtView::Empty),
{
    match assigned_default(item) {
        Some(value) => {
            lemma_assignment_shape(item);
            lemma_assignment_settled(value);
            lemma_rules_skip_assignment(p, value);
            lemma_idle_on_stmt(p, default_export_stmt(value)->Expr_0, 0);
        },
        None => {
            lemma_settled_item(p, item, 0);
        },
    }
}

/// What remains of a waiting body is a waiting body.
proof fn lemma_remaining_waits(p: Pass, body: Seq<ModuleItemView>)
    requires
        waiting_body(body),
    ensures
        waiting_body(remaining(p, body)),
    decreases body.len(),
{
    if body.len() > 0 {
        let front = body.drop_last();
        assert forall|i: int| 0 <= i < front.len() implies waiting_item(#[trigger] front[i]) by {
            assert(front[i] == body[i]);
        }
        lemma_remaining_waits(p, front);
        assert(waiting_item(body[body.len() - 1]));
    }
}

/// The last pass finds in what the identifier pass has left what it finds in
/// the body, where the last assignment of the body is none that the
/// identifier pass takes; and it takes away whatever the identifier pass has
/// left.
proof fn lemma_after_identifier_pass(body: Seq<ModuleItemView>)
    ensures
        remaining(Pass::ModuleDefaultExport, remaining(Pass::ModuleExportsIdent, body))
            == remaining(Pass::ModuleDefaultExport, body),
        !(last_finding(Pass::ModuleExportsIdent, body) is Found) ==> last_finding(
            Pass::ModuleDefaultExport,
            remaining(Pass::ModuleExportsIdent, body),
        ) == last_finding(Pass::ModuleDefaultExport, body),
        last_finding(Pass::ModuleExportsIdent, body) is Unset ==> last_finding(
            Pass::ModuleDefaultExport,
            body,
        ) is Unset,
    decreases body.len(),
{
    let first = Pass::ModuleExportsIdent;
    let last = Pass::ModuleDefaultExport;
    if body.len() > 0 {
        let front = body.drop_last();
        let item = body.last();
        lemma_after_identifier_pass(front);
        let kept = remaining(first, front);
        match assigned_default(item) {
            Some(value) => {
                if !takes_default(first, value) {
                    assert(kept.push(item).drop_last() =~= kept);
                    assert(kept.push(item).last() == item);
                }
            },
            None => {
                assert(kept.push(item).drop_last() =~= kept);
                assert(kept.push(item).last() == item);
            },
        }
    }
}

/// What the last pass makes of what the identifier pass has handed on.
proof fn lemma_last_pass_after_identifier_pass(body: Seq<ModuleItemView>)
    requires
        waiting_body(body),
    ensures
        ({
            let first = Pass::ModuleExportsIdent;
            let between = remaining(first, body) + default_items(
                decided(last_finding(first, body)),
            );
            apply(Pass::ModuleDefaultExport, ModuleView { body: between }) == Ok::<
                OutputView,
                RewriteError,
            >(
                OutputView {
                    module: ModuleView {
                        body: remaining(Pass::ModuleDefaultExport, body) + default_items(
                            chosen_default(body),
                        ),
                    },
                    warnings: default_warnings(chosen_default(body)),
                },
            )
        }),
{
    let first = Pass::ModuleExportsIdent;
    let last = Pass::ModuleDefaultExport;
    let kept = remaining(first, body);
    let added = default_items(decided(last_finding(first, body)));
    lemma_remaining_waits(first, body);
    lemma_after_identifier_pass(body);
    match decided(last_finding(first, body)) {
        None => {
            assert(kept + added =~= kept);
            law_last_default_assignment_decides(last, kept);
        },
        Some(d) => {
            reveal(apply);
            let name = d->Named_0;
            assert(d == DefaultExportView::Named(name)) by {
                lemma_finding_by_name(body);
            }
            lemma_defaults_in_items(last, kept, 0);
            let x = rw_items(last, kept, 0);
            assert forall|i: int| 0 <= i < added.len() implies #[trigger] rw_item(
                last,
                added[i],
                0,
            ) == keep(added[i]) && added[i] != ModuleItemView::Stmt(StmtView::Empty) by {
                lemma_settled_expr(last, ExprView::Ident(name), 0);
            }
            lemma_left_alone(last, added);
            law_order_preserved(last, kept, added, 0);
            lemma_concat_empty(x.out);
            let r = rw_items(last, kept + added, 0);
            assert(r.node == x.node + added);
            assert(r.node[r.node.len() - 1] is ExportDefault);
            assert(holds_default(r.node));
            assert(flush(r.node, r.out) =~= remaining(last, body) + added);
            assert(r.out.warnings + Seq::<Warning>::empty() =~= Seq::<Warning>::empty());
        },
    }
}

/// What the identifier pass finds is a default export by name.
proof fn lemma_finding_by_name(body: Seq<ModuleItemView>)
    ensures
        last_finding(Pass::ModuleExportsIdent, body) matches DefaultFindingView::Found(d) ==> d
            is Named,
    decreases body.len(),
{
    if body.len() > 0 {
        lemma_finding_by_name(body.drop_last());
    }
}

/// A pass that makes no default export leaves a waiting body alone.
proof fn lemma_waiting_body_left_alone(p: Pass, body: Seq<ModuleItemView>)
    requires
        !makes_default(p),
        waiting_body(body),
    ensures
        left_alone(p, body),
{
    assert forall|i: int| 0 <= i < body.len() implies #[trigger] rw_item(p, body[i], 0) == keep(
        body[i],
    ) && body[i] != ModuleItemView::Stmt(StmtView::Empty) by {
        lemma_waiting_item_left_alone(p, body[i]);
    }
}

/// The import passes leave a waiting body alone.
proof fn lemma_imports_leave_waiting(body: Seq<ModuleItemView>)
    requires
        waiting_body(body),
    ensures
        imports_of(untouched(ModuleView { body })) == untouched(ModuleView { body }),
{
    let start = untouched(ModuleView { body });
    lemma_waiting_body_left_alone(Pass::RequireStatement, body);
    lemma_waiting_body_left_alone(Pass::RequireIdent, body);
    lemma_waiting_body_left_alone(Pass::PureDestructuredRequire, body);
    lemma_waiting_body_left_alone(Pass::RequireFallback, body);
    lemma_pass_leaves_alone(start, Pass::RequireStatement);
    lemma_pass_leaves_alone(start, Pass::RequireIdent);
    lemma_pass_leaves_alone(start, Pass::PureDestructuredRequire);
    lemma_pass_leaves_alone(start, Pass::RequireFallback);
}

/// What the identifier pass hands on for a waiting body.
pub open spec fn after_identifier_pass(body: Seq<ModuleItemView>) -> ModuleView {
    ModuleView {
        body: remaining(Pass::ModuleExportsIdent, body) + default_items(
            decided(last_finding(Pass::ModuleExportsIdent, body)),
        ),
    }
}

/// A pass that makes no default export leaves alone what the identifier pass
/// hands on for a waiting body.
proof fn lemma_between_left_alone(p: Pass, body: Seq<ModuleItemView>)
    requires
        !makes_default(p),
        waiting_body(body),
    ensures
        left_alone(p, after_identifier_pass(body).body),
{
    let first = Pass::ModuleExportsIdent;
    let kept = remaining(first, body);
    let added = default_items(decided(last_finding(first, body)));
    let between = kept + added;
    lemma_remaining_waits(first, body);
    lemma_finding_by_name(body);
    assert forall|i: int| 0 <= i < between.len() implies #[trigger] rw_item(p, between[i], 0)
        == keep(between[i]) && between[i] != ModuleItemView::Stmt(StmtView::Empty) by {
        if i < kept.len() {
            assert(between[i] == kept[i]);
            lemma_waiting_item_left_alone(p, kept[i]);
        } else {
            assert(between[i] == added[i - kept.len()]);
            let name = decided(last_finding(first, body))->Some_0->Named_0;
            lemma_settled_expr(p, ExprView::Ident(name), 0);
        }
    }
}

/// The identifier pass and the two passes after it on a waiting body.
proof fn lemma_first_export_passes(body: Seq<ModuleItemView>)
    requires
        waiting_body(body),
    ensures
        followed_by(
            followed_by(
                followed_by(untouched(ModuleView { body }), Pass::ModuleExportsIdent),
                Pass::ModuleExportsNamedExpr,
            ),
            Pass::ExportDefaultObject,
        ) == untouched(after_identifier_pass(body)),
{
    let first = Pass::ModuleExportsIdent;
    let between = after_identifier_pass(body);
    law_last_default_assignment_decides(first, body);
    lemma_finding_by_name(body);
    assert(Seq::<Warning>::empty() + Seq::<Warning>::empty() =~= Seq::<Warning>::empty());
    assert(followed_by(untouched(ModuleView { body }), first) == untouched(between));
    lemma_between_left_alone(Pass::ModuleExportsNamedExpr, body);
    lemma_between_left_alone(Pass::ExportDefaultObject, body);
    lemma_pass_leaves_alone(untouched(between), Pass::ModuleExportsNamedExpr);
    lemma_pass_leaves_alone(untouched(between), Pass::ExportDefaultObject);
}

/// Of the statements of a module that assign to `module.exports`, the last
/// one decides what the cascade exports by default. In a module of such
/// statements, none of which assigns an object literal, and of items that
/// no pass would change, none of them a default export, the cascade takes
/// every such statement away and leaves the other items as they are and in
/// their order. Where the last such statement assigns the identifier
/// `name`, the module ends with `export { name };` and
/// `export default name;`, and draws no warning; where it assigns anything
/// else, the module ends with `export default <value>;`, and draws one
/// warning. The module has no other default export.
pub proof fn law_cascade_last_default_assignment_decides(body: Seq<ModuleItemView>)
    requires
        waiting_body(body),
    ensures
        cascade(ModuleView { body }) == Ok::<OutputView, RewriteError>(
            OutputView {
                module: ModuleView {
                    body: remaining(Pass::ModuleDefaultExport, body) + default_items(
                        chosen_default(body),
                    ),
                },
                warnings: default_warnings(chosen_default(body)),
            },
        ),
        !holds_default(remaining(Pass::ModuleDefaultExport, body)),
        forall|j: int|
            0 <= j < remaining(Pass::ModuleDefaultExport, body).len() ==> assigned_default(
                #[trigger] remaining(Pass::ModuleDefaultExport, body)[j],
            ) is None,
{
    lemma_imports_leave_waiting(body);
    lemma_first_export_passes(body);
    lemma_last_pass_after_identifier_pass(body);
    let w = default_warnings(chosen_default(body));
    assert(Seq::<Warning>::empty() + w =~= w);
    law_last_default_assignment_decides(Pass::ModuleDefaultExport, body);
}

/// `module.exports = name; module.exports = value;`
pub open spec fn name_then_value(name: Seq<char>, value: ExprView) -> Seq<ModuleItemView> {
    seq![
        ModuleItemView::Stmt(default_export_stmt(ExprView::Ident(name))),
        ModuleItemView::Stmt(default_export_stmt(value)),
    ]
}

/// `module.exports = value; module.exports = name;`
pub open spec fn value_then_name(value: ExprView, name: Seq<char>) -> Seq<ModuleItemView> {
    seq![
        ModuleItemView::Stmt(default_export_stmt(value)),
        ModuleItemView::Stmt(default_export_stmt(ExprView::Ident(name))),
    ]
}

/// What a body of two assignments to `module.exports` comes to.
proof fn lemma_two_assignments(first: ExprView, second: ExprView)
    requires
        settled_expr(first),
        settled_expr(second),
        first !is Object,
        second !is Object,
    ensures
        ({
            let body = seq![
                ModuleItemView::Stmt(default_export_stmt(first)),
                ModuleItemView::Stmt(default_export_stmt(second)),
            ];
            &&& waiting_body(body)
            &&& remaining(Pass::ModuleDefaultExport, body) == Seq::<ModuleItemView>::empty()
            &&& last_finding(Pass::ModuleExportsIdent, body) == finding_of(
                Pass::ModuleExportsIdent,
                second,
            )
            &&& last_finding(Pass::ModuleDefaultExport, body) == finding_of(
                Pass::ModuleDefaultExport,
                second,
            )
        }),
{
    let body = seq![
        ModuleItemView::Stmt(default_export_stmt(first)),
        ModuleItemView::Stmt(default_export_stmt(second)),
    ];
    reveal_strlit("module");
    reveal_strlit("exports");
    assert(assigned_default(body[0]) == Some(first));
    assert(assigned_default(body[1]) == Some(second));
    let front = body.drop_last();
    assert(front.drop_last() =~= Seq::<ModuleItemView>::empty());
    assert(front.last() == body[0]);
    reveal_with_fuel(remaining, 3);
    assert(remaining(Pass::ModuleDefaultExport, body) =~= Seq::<ModuleItemView>::empty());
}

/// An identifier and then a value: of `module.exports = name;` and
/// `module.exports = value;`, where `value` is neither an identifier nor an
/// object literal, the cascade makes `export default value;` and nothing
/// else, and warns once.
pub proof fn law_value_after_name(name: Seq<char>, value: ExprView)
    requires
        settled_expr(value),
        value !is Ident,
        value !is Object,
    ensures
        cascade(ModuleView { body: name_then_value(name, value) }) == Ok::<
            OutputView,
            RewriteError,
        >(
            OutputView {
                module: ModuleView { body: seq![ModuleItemView::ExportDefault(value)] },
                warnings: seq![Warning::OpaqueDefaultExport],
            },
        ),
{
    let body = name_then_value(name, value);
    lemma_two_assignments(ExprView::Ident(name), value);
    law_cascade_last_default_assignment_decides(body);
    assert(remaining(Pass::ModuleDefaultExport, body) + seq![
        ModuleItemView::ExportDefault(value),
    ] =~= seq![ModuleItemView::ExportDefault(value)]);
}

/// A value and then an identifier: of `module.exports = value;` and
/// `module.exports = name;`, where `value` is no object literal, the cascade
/// makes `export { name };` and `export default name;` and nothing else,
/// and does not warn.
pub proof fn law_name_after_value(value: ExprView, name: Seq<char>)
    requires
        settled_expr(value),
        value !is Object,
    ensures
        cascade(ModuleView { body: value_then_name(value, name) }) == untouched(
            ModuleView {
                body: seq![
                    single_export(name, None),
                    ModuleItemView::ExportDefault(ExprView::Ident(name)),
                ],
            },
        ),
{
    let body = value_then_name(value, name);
    lemma_two_assignments(value, ExprView::Ident(name));
    law_cascade_last_default_assignment_decides(body);
    assert(remaining(Pass::ModuleDefaultExport, body) + seq![
        single_export(name, None),
        ModuleItemView::ExportDefault(ExprView::Ident(name)),
    ] =~= seq![single_export(name, None), ModuleItemView::ExportDefault(ExprView::Ident(name))]);
}

} // verus!
