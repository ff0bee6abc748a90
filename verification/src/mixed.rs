//! Modules that mix `require` with items that are ECMAScript module syntax
//! already: the imports come to the head in the order of the source, and
//! every other item stays where it is.
use crate::ast::{
    ExprView, ImportDeclView, ModuleItemView, ModuleView, PatView, StmtView, VarDeclaratorView,
    VarDeclView,
};
use crate::bare_free::{bare_free_item, lemma_bare_free_item};
use crate::converted::{converted_item, defaults_gone};
use crate::laws::{bound_require, lemma_bound_require_taken, lemma_require_inert, require_of};
use crate::settled::{
    lemma_rest_of_cascade_idle, lemma_settled_declarator, lemma_settled_item, settled_declarator,
    settled_module,
};
use crate::tidy::tidy_item;
use crate::transform_cjs::{cascade, followed_by, untouched};
use crate::traverse::{
    apply, flush, import_items, lemma_concat_empty, on_expr_stmt, rw_declarators, rw_item, rw_items,
    rw_stmt,
};
use crate::utils::{require_call, RequireCall};
use crate::visitors::{
    keep, namespace_import, side_effect_import, Pass, PendingView, Rewrite, Warning,
};
use vstd::prelude::*;

verus! {

/// An item that no pass changes: it is ECMAScript module syntax already.
pub open spec fn settled_item(item: ModuleItemView) -> bool {
    converted_item(item, defaults_gone()) && tidy_item(item)
}

/// What is pending where nothing but imports is.
pub open spec fn only_imports(imports: Seq<ImportDeclView>) -> PendingView {
    PendingView { imports, ..PendingView::empty() }
}

/// The source that the item requires, if it is a statement `require('src');`.
pub open spec fn bare_require(item: ModuleItemView) -> Option<Seq<char>> {
    match item {
        ModuleItemView::Stmt(StmtView::Expr(e)) => match require_call(e) {
            RequireCall::Literal(src) => Some(src),
            _ => None,
        },
        _ => None,
    }
}

/// `import 'src';` for each statement `require('src');` of the body, in the
/// order of the body.
pub open spec fn bare_imports(body: Seq<ModuleItemView>) -> Seq<ImportDeclView>
    decreases body.len(),
{
    if body.len() == 0 {
        Seq::empty()
    } else {
        match bare_require(body.last()) {
            Some(src) => bare_imports(body.drop_last()).push(side_effect_import(src)),
            None => bare_imports(body.drop_last()),
        }
    }
}

/// The body without its statements `require('src');`, in the order of the
/// body.
pub open spec fn without_bare_requires(body: Seq<ModuleItemView>) -> Seq<ModuleItemView>
    decreases body.len(),
{
    if body.len() == 0 {
        Seq::empty()
    } else {
        match bare_require(body.last()) {
            Some(_) => without_bare_requires(body.drop_last()),
            None => without_bare_requires(body.drop_last()).push(body.last()),
        }
    }
}

/// Every item of the body is a statement `require('src');` or is settled.
pub open spec fn bare_requires_among_settled(body: Seq<ModuleItemView>) -> bool {
    forall|i: int|
        0 <= i < body.len() ==> bare_require(#[trigger] body[i]) is Some || settled_item(body[i])
}

/// A statement that requires `src` and does nothing else is `require('src');`.
proof fn lemma_bare_require_shape(item: ModuleItemView)
    requires
        bare_require(item) is Some,
    ensures
        item == ModuleItemView::Stmt(StmtView::Expr(require_of(bare_require(item)->Some_0))),
{
    let c = item->Stmt_0->Expr_0->Call_0;
    let src = bare_require(item)->Some_0;
    assert(c.args =~= seq![ExprView::Str(src)]);
}

/// Every item of the body is a statement `require('src');`, or an item that
/// the statement pass leaves as it is.
pub open spec fn bare_requires_among_kept(body: Seq<ModuleItemView>) -> bool {
    forall|i: int, k: nat|
        0 <= i < body.len() ==> bare_require(body[i]) is Some || (#[trigger] rw_item(
            Pass::RequireStatement,
            body[i],
            k,
        ) == keep(body[i]) && body[i] != ModuleItemView::Stmt(StmtView::Empty))
}

/// What the statement pass records for a body of bare requires and of items
/// that it leaves as they are.
proof fn lemma_bare_requires_among(body: Seq<ModuleItemView>, n: nat)
    requires
        bare_requires_among_kept(body),
    ensures
        rw_items(Pass::RequireStatement, body, n) == (Rewrite {
            node: without_bare_requires(body),
            out: only_imports(bare_imports(body)),
            fatal: false,
        }),
    decreases body.len(),
{
    let p = Pass::RequireStatement;
    if body.len() > 0 {
        let front = body.drop_last();
        assert forall|i: int, k: nat| 0 <= i < front.len() implies bare_require(front[i])
            is Some || (#[trigger] rw_item(p, front[i], k) == keep(front[i]) && front[i]
            != ModuleItemView::Stmt(StmtView::Empty)) by {
            assert(front[i] == body[i]);
            assert(bare_require(body[i]) is Some || (rw_item(p, body[i], k) == keep(body[i])
                && body[i] != ModuleItemView::Stmt(StmtView::Empty)));
        }
        lemma_bare_requires_among(front, n);
        let before = rw_items(p, front, n);
        let m = n + before.out.issued();
        let item = body.last();
        assert(bare_require(body[body.len() - 1]) is Some || (rw_item(
            p,
            body[body.len() - 1],
            m,
        ) == keep(body[body.len() - 1]) && body[body.len() - 1] != ModuleItemView::Stmt(
            StmtView::Empty,
        )));
        match bare_require(item) {
            Some(src) => {
                lemma_bare_require_shape(item);
                let e = require_of(src);
                lemma_require_inert(p, src, m);
                let taken = PendingView::import(side_effect_import(src));
                assert(on_expr_stmt(p, e, m) == (Rewrite {
                    node: StmtView::Empty,
                    out: taken,
                    fatal: false,
                })) by {
                    reveal(on_expr_stmt);
                }
                lemma_concat_empty(taken);
                assert(rw_stmt(p, StmtView::Expr(e), m) == (Rewrite {
                    node: StmtView::Empty,
                    out: taken,
                    fatal: false,
                }));
                assert(before.out.concat(taken) =~~= only_imports(bare_imports(body)));
            },
            None => {
                lemma_concat_empty(before.out);
            },
        }
    }
}

/// What is left of a body of bare requires and of settled items is settled.
proof fn lemma_others_settled(body: Seq<ModuleItemView>)
    requires
        bare_requires_among_settled(body),
    ensures
        forall|j: int|
            0 <= j < without_bare_requires(body).len() ==> settled_item(
                #[trigger] without_bare_requires(body)[j],
            ),
    decreases body.len(),
{
    if body.len() > 0 {
        let front = body.drop_last();
        assert forall|i: int| 0 <= i < front.len() implies bare_require(#[trigger] front[i])
            is Some || settled_item(front[i]) by {
            assert(front[i] == body[i]);
        }
        lemma_others_settled(front);
        assert(bare_require(body[body.len() - 1]) is Some || settled_item(body[body.len() - 1]));
        let rest = without_bare_requires(body);
        let before = without_bare_requires(front);
        assert forall|j: int| 0 <= j < rest.len() implies settled_item(#[trigger] rest[j]) by {
            if j < before.len() {
                assert(rest[j] == before[j]);
            }
        }
    }
}

/// The statement pass leaves a settled item as it is.
proof fn lemma_settled_are_kept(body: Seq<ModuleItemView>)
    requires
        bare_requires_among_settled(body),
    ensures
        bare_requires_among_kept(body),
{
    let p = Pass::RequireStatement;
    assert forall|i: int, k: nat| 0 <= i < body.len() implies bare_require(body[i]) is Some || (
    #[trigger] rw_item(p, body[i], k) == keep(body[i]) && body[i] != ModuleItemView::Stmt(
        StmtView::Empty,
    )) by {
        if bare_require(body[i]) is None {
            lemma_settled_item(p, body[i], k);
        }
    }
}

/// Every item of the body is a statement `require('src');`, or an item
/// without placeholders in which no statement is a call of `require`.
pub open spec fn bare_requires_among_others(body: Seq<ModuleItemView>) -> bool {
    forall|i: int|
        0 <= i < body.len() ==> bare_require(#[trigger] body[i]) is Some || (tidy_item(body[i])
            && bare_free_item(body[i]))
}

/// The statement pass leaves as it is an item without placeholders in which
/// no statement is a call of `require`.
proof fn lemma_others_are_kept(body: Seq<ModuleItemView>)
    requires
        bare_requires_among_others(body),
    ensures
        bare_requires_among_kept(body),
{
    let p = Pass::RequireStatement;
    assert forall|i: int, k: nat| 0 <= i < body.len() implies bare_require(body[i]) is Some || (
    #[trigger] rw_item(p, body[i], k) == keep(body[i]) && body[i] != ModuleItemView::Stmt(
        StmtView::Empty,
    )) by {
        if bare_require(body[i]) is None {
            lemma_bare_free_item(p, body[i], k);
        }
    }
}

/// In a module of statements `require('src');` and of other items, in none
/// of which a statement is a call of `require` and none of which holds a
/// placeholder, the statement pass takes every statement `require('src');`
/// away, puts `import 'src';` for each of them at the head of the module, in
/// the order of the statements, and leaves every other item as it is and in
/// its place among the others.
pub proof fn law_bare_requires_among_other_items(body: Seq<ModuleItemView>)
    requires
        bare_requires_among_others(body),
    ensures
        apply(Pass::RequireStatement, ModuleView { body }) == untouched(
            ModuleView { body: import_items(bare_imports(body)) + without_bare_requires(body) },
        ),
{
    reveal(apply);
    lemma_others_are_kept(body);
    lemma_bare_requires_among(body, 0);
    let r = rw_items(Pass::RequireStatement, body, 0);
    assert(flush(r.node, r.out) =~= import_items(bare_imports(body)) + without_bare_requires(
        body,
    ));
}

/// What the statement pass makes of a module of bare requires and settled
/// items.
proof fn lemma_statement_pass_among(body: Seq<ModuleItemView>)
    requires
        bare_requires_among_settled(body),
    ensures
        apply(Pass::RequireStatement, ModuleView { body }) == untouched(
            ModuleView { body: import_items(bare_imports(body)) + without_bare_requires(body) },
        ),
{
    reveal(apply);
    lemma_settled_are_kept(body);
    lemma_bare_requires_among(body, 0);
    let r = rw_items(Pass::RequireStatement, body, 0);
    assert(flush(r.node, r.out) =~= import_items(bare_imports(body)) + without_bare_requires(
        body,
    ));
}

/// The imports at the head and the settled items after them make a settled
/// module.
proof fn lemma_settled_after(body: Seq<ModuleItemView>)
    requires
        bare_requires_among_settled(body),
    ensures
        settled_module(
            ModuleView { body: import_items(bare_imports(body)) + without_bare_requires(body) },
        ),
        forall|j: int|
            0 <= j < without_bare_requires(body).len() ==> bare_require(
                #[trigger] without_bare_requires(body)[j],
            ) is None,
{
    lemma_others_settled(body);
    let imports = import_items(bare_imports(body));
    let rest = without_bare_requires(body);
    let after = imports + rest;
    assert forall|i: int| 0 <= i < after.len() implies settled_item(#[trigger] after[i]) by {
        if i >= imports.len() {
            assert(after[i] == rest[i - imports.len()]);
        }
    }
    assert forall|j: int| 0 <= j < rest.len() implies bare_require(#[trigger] rest[j])
        is None by {
        assert(settled_item(rest[j]));
    }
}

/// In a module of statements `require('src');` and of items that are settled,
/// the statement pass takes every such statement away, puts `import 'src';`
/// for each of them at the head of the module, in the order of the
/// statements, and leaves every other item as it is and in its place among
/// the others; the rest of the cascade changes nothing more.
pub proof fn law_bare_requires_among_settled_items(body: Seq<ModuleItemView>)
    requires
        bare_requires_among_settled(body),
    ensures
        apply(Pass::RequireStatement, ModuleView { body }) == untouched(
            ModuleView { body: import_items(bare_imports(body)) + without_bare_requires(body) },
        ),
        cascade(ModuleView { body }) == untouched(
            ModuleView { body: import_items(bare_imports(body)) + without_bare_requires(body) },
        ),
        forall|j: int|
            0 <= j < without_bare_requires(body).len() ==> bare_require(
                #[trigger] without_bare_requires(body)[j],
            ) is None,
{
    let m = ModuleView { body };
    let after = ModuleView { body: import_items(bare_imports(body)) + without_bare_requires(body) };
    lemma_statement_pass_among(body);
    lemma_settled_after(body);
    assert(Seq::<Warning>::empty() + Seq::<Warning>::empty() =~= Seq::<Warning>::empty());
    assert(followed_by(untouched(m), Pass::RequireStatement) == untouched(after));
    lemma_rest_of_cascade_idle(untouched(after));
}

/// `import * as name from 'src';`, if the declarator is
/// `name = require('src')`.
pub open spec fn bound_by_require(d: VarDeclaratorView) -> Option<ImportDeclView> {
    match (d.name, d.init) {
        (PatView::Ident(name), Some(init)) => match require_call(init) {
            RequireCall::Literal(src) => Some(namespace_import(name, src)),
            _ => None,
        },
        _ => None,
    }
}

/// The namespace imports that the declarators `name = require('src')` among
/// `decls` stand for, in the order of `decls`.
pub open spec fn bound_imports(decls: Seq<VarDeclaratorView>) -> Seq<ImportDeclView>
    decreases decls.len(),
{
    if decls.len() == 0 {
        Seq::empty()
    } else {
        match bound_by_require(decls.last()) {
            Some(import) => bound_imports(decls.drop_last()).push(import),
            None => bound_imports(decls.drop_last()),
        }
    }
}

/// `decls` without the declarators `name = require('src')`, in the order of
/// `decls`.
pub open spec fn unbound(decls: Seq<VarDeclaratorView>) -> Seq<VarDeclaratorView>
    decreases decls.len(),
{
    if decls.len() == 0 {
        Seq::empty()
    } else {
        match bound_by_require(decls.last()) {
            Some(_) => unbound(decls.drop_last()),
            None => unbound(decls.drop_last()).push(decls.last()),
        }
    }
}

/// Every declarator is `name = require('src')` or is settled.
pub open spec fn bound_among_settled(decls: Seq<VarDeclaratorView>) -> bool {
    forall|i: int|
        0 <= i < decls.len() ==> bound_by_require(#[trigger] decls[i]) is Some
            || settled_declarator(decls[i])
}

/// The namespace imports that the item stands for: those of its declarators,
/// if it is a variable declaration.
pub open spec fn item_imports(item: ModuleItemView) -> Seq<ImportDeclView> {
    match item {
        ModuleItemView::Stmt(StmtView::Var(d)) => bound_imports(d.decls),
        _ => Seq::empty(),
    }
}

/// What is left of the item: a variable declaration without its declarators
/// `name = require('src')`, and nothing where no declarator is left; any
/// other item as it is.
pub open spec fn item_left(item: ModuleItemView) -> Option<ModuleItemView> {
    match item {
        ModuleItemView::Stmt(StmtView::Var(d)) => if unbound(d.decls).len() == 0 {
            None
        } else {
            Some(
                ModuleItemView::Stmt(
                    StmtView::Var(VarDeclView { kind: d.kind, decls: unbound(d.decls) }),
                ),
            )
        },
        _ => Some(item),
    }
}

/// The namespace imports that the items of the body stand for, in the order
/// of the body.
pub open spec fn namespace_imports(body: Seq<ModuleItemView>) -> Seq<ImportDeclView>
    decreases body.len(),
{
    if body.len() == 0 {
        Seq::empty()
    } else {
        namespace_imports(body.drop_last()) + item_imports(body.last())
    }
}

/// What is left of the items of the body, in the order of the body.
pub open spec fn items_left(body: Seq<ModuleItemView>) -> Seq<ModuleItemView>
    decreases body.len(),
{
    if body.len() == 0 {
        Seq::empty()
    } else {
        match item_left(body.last()) {
            Some(item) => items_left(body.drop_last()).push(item),
            None => items_left(body.drop_last()),
        }
    }
}

/// Every item of the body is a variable declaration of declarators that are
/// `name = require('src')` or settled, or is settled itself.
pub open spec fn bound_requires_among_settled(body: Seq<ModuleItemView>) -> bool {
    forall|i: int|
        0 <= i < body.len() ==> match #[trigger] body[i] {
            ModuleItemView::Stmt(StmtView::Var(d)) => bound_among_settled(d.decls),
            item => settled_item(item),
        }
}

/// A declarator that binds an identifier to `require('src')` is
/// `name = require('src')`.
proof fn lemma_bound_shape(d: VarDeclaratorView)
    requires
        bound_by_require(d) is Some,
    ensures
        ({
            let name = d.name->Ident_0;
            let src = require_call(d.init->Some_0)->Literal_0;
            &&& d == bound_require(name, src)
            &&& bound_by_require(d) == Some(namespace_import(name, src))
        }),
{
    let c = d.init->Some_0->Call_0;
    let src = require_call(d.init->Some_0)->Literal_0;
    assert(c.args =~= seq![ExprView::Str(src)]);
}

/// What the ident-bound pass records for declarators that are
/// `name = require('src')` or settled.
proof fn lemma_bound_among(decls: Seq<VarDeclaratorView>, n: nat)
    requires
        bound_among_settled(decls),
    ensures
        rw_declarators(Pass::RequireIdent, decls, n) == (Rewrite {
            node: unbound(decls),
            out: only_imports(bound_imports(decls)),
            fatal: false,
        }),
    decreases decls.len(),
{
    let p = Pass::RequireIdent;
    if decls.len() > 0 {
        let front = decls.drop_last();
        assert forall|i: int| 0 <= i < front.len() implies bound_by_require(#[trigger] front[i])
            is Some || settled_declarator(front[i]) by {
            assert(front[i] == decls[i]);
        }
        lemma_bound_among(front, n);
        let before = rw_declarators(p, front, n);
        let m = n + before.out.issued();
        let d = decls.last();
        assert(bound_by_require(decls[decls.len() - 1]) is Some || settled_declarator(
            decls[decls.len() - 1],
        ));
        match bound_by_require(d) {
            Some(import) => {
                lemma_bound_shape(d);
                lemma_bound_require_taken(
                    d.name->Ident_0,
                    require_call(d.init->Some_0)->Literal_0,
                    m,
                );
                assert(before.out.concat(PendingView::import(import)) =~~= only_imports(
                    bound_imports(decls),
                ));
            },
            None => {
                lemma_settled_declarator(p, d, m);
                lemma_concat_empty(before.out);
            },
        }
    }
}

/// What the ident-bound pass records for a body of such declarations and of
/// settled items.
proof fn lemma_bound_requires_among(body: Seq<ModuleItemView>, n: nat)
    requires
        bound_requires_among_settled(body),
    ensures
        rw_items(Pass::RequireIdent, body, n) == (Rewrite {
            node: items_left(body),
            out: only_imports(namespace_imports(body)),
            fatal: false,
        }),
    decreases body.len(),
{
    let p = Pass::RequireIdent;
    if body.len() > 0 {
        let front = body.drop_last();
        assert forall|i: int| 0 <= i < front.len() implies match #[trigger] front[i] {
            ModuleItemView::Stmt(StmtView::Var(d)) => bound_among_settled(d.decls),
            item => settled_item(item),
        } by {
            assert(front[i] == body[i]);
        }
        lemma_bound_requires_among(front, n);
        let before = rw_items(p, front, n);
        let m = n + before.out.issued();
        let item = body.last();
        assert(item == body[body.len() - 1]);
        match item {
            ModuleItemView::Stmt(StmtView::Var(d)) => {
                lemma_bound_among(d.decls, m);
                let last = rw_item(p, item, m);
                assert(before.out.concat(last.out) =~~= only_imports(namespace_imports(body)));
            },
            _ => {
                lemma_settled_item(p, item, m);
                lemma_concat_empty(before.out);
                assert(namespace_imports(body) =~= namespace_imports(front));
            },
        }
    }
}

/// In a module of variable declarations whose declarators are
/// `name = require('src')` or settled, and of other items that are settled,
/// the ident-bound pass takes every declarator `name = require('src')` away
/// and puts `import * as name from 'src';` for each of them at the head of
/// the module, in the order of the declarators in the source; a declaration
/// keeps its other declarators in their order and goes where none is left;
/// and every other item stays as it is and in its place.
pub proof fn law_bound_requires_among_settled_items(body: Seq<ModuleItemView>)
    requires
        bound_requires_among_settled(body),
    ensures
        apply(Pass::RequireIdent, ModuleView { body }) == untouched(
            ModuleView { body: import_items(namespace_imports(body)) + items_left(body) },
        ),
{
    reveal(apply);
    let p = Pass::RequireIdent;
    lemma_bound_requires_among(body, 0);
    let r = rw_items(p, body, 0);
    assert(flush(r.node, r.out) =~= import_items(namespace_imports(body)) + items_left(body));
}

} // verus!
