//! The rewrite rules, one pass each, and the context that a pass fills.
//!
//! A rule looks at one node whose sub-trees have been rewritten already. It
//! either leaves the node as it is, or takes it away and records the
//! declaration that stands for it in the pass's [`Pending`] context. What a
//! rule does is a spec function from the node to a [`Rewrite`]; the
//! executable rule is proved against it.
//!
//! The rules for `require('x');` and for assignments to `module.exports` and
//! `exports.<name>` apply to expression statements: an assignment that is
//! part of a larger expression is no statement and stays. The rules for
//! bound and destructured `require` apply to the declarators of variable
//! declaration statements. The fallback applies to every expression.
//!
//! Synthetic names are numbered by what is pending: the next name carries the
//! number of pending imports and hoisted constants plus one, so the numbers
//! of one pass rise in the order of the matches and start anew with the next
//! pass.
use crate::ast::{
    declarators_view, export_specifiers_view, import_specifiers_view, items_view, pat_props_view,
    props_view, ExportSpecifier, ExportSpecifierView, Expr, ExprView, ImportDecl, ImportDeclView,
    ImportSpecifier, ImportSpecifierView, Key, KeyView, ModuleItem, ModuleItemView, NamedExport,
    NamedExportView, ObjectPatProp, ObjectPatPropView, Pat, PatView, Prop, PropView, Stmt, StmtView,
    VarDeclarator, VarDeclaratorView,
};
use crate::names::{synthetic_ident, synthetic_name};
use crate::utils::{
    export_property, exported_property, is_export_default, is_valid_identifier, require_call,
    require_source, targets_module_exports, valid_identifier, RequireCall, RewriteError,
};
use vstd::prelude::*;

verus! {

/// The eight passes, in the order in which the cascade runs them.
#[derive(Debug, Clone, Copy, PartialEq, Eq)]
pub enum Pass {
    /// `require('x');` becomes `import 'x';`.
    RequireStatement,
    /// `name = require('x')` becomes `import * as name from 'x';`.
    RequireIdent,
    /// `{ a, b: c } = require('x')` becomes `import { a, b as c } from 'x';`.
    PureDestructuredRequire,
    /// Any other `require('x')` becomes a reference to a synthetic namespace
    /// import.
    RequireFallback,
    /// `module.exports = name;` becomes `export { name };` and
    /// `export default name;`.
    ModuleExportsIdent,
    /// `exports.name = value;` becomes a named export of `name`.
    ModuleExportsNamedExpr,
    /// `module.exports = { .. };` becomes one named export per property.
    ExportDefaultObject,
    /// Any other `module.exports = value;` becomes `export default value;`.
    ModuleDefaultExport,
}

/// What a pass tells its caller about the module besides the rewritten tree.
#[derive(Debug, Clone, Copy, PartialEq, Eq)]
pub enum Warning {
    /// `module.exports` was assigned an object literal with a spread, a
    /// computed key, an accessor, a method or a key that is no identifier.
    /// Nothing was extracted from it.
    ImpureDefaultExport,
    /// The module's default export is an expression of which no named export
    /// could be made. A module draws this warning once, whatever the number
    /// of assignments that the last pass has taken away.
    OpaqueDefaultExport,
}

/// The default export that a pass has found for the module.
#[derive(Debug, PartialEq, Eq)]
pub enum DefaultExport {
    /// `export default <value>;`
    Value(Expr),
    /// `export { name };` and `export default name;`
    Named(String),
}

/// The view of [`DefaultExport`].
pub enum DefaultExportView {
    Value(ExprView),
    Named(Seq<char>),
}

impl View for DefaultExport {
    type V = DefaultExportView;

    open spec fn view(&self) -> DefaultExportView {
        match self {
            DefaultExport::Value(e) => DefaultExportView::Value(e@),
            DefaultExport::Named(name) => DefaultExportView::Named(name@),
        }
    }
}

/// What a pass has found out about the module's default export. A module
/// has one default export, and of the assignments to `module.exports` the
/// last one in the order of the traversal is the one that counts.
#[derive(Debug, PartialEq, Eq)]
pub enum DefaultFinding {
    /// The pass has met no assignment to `module.exports`.
    Unset,
    /// The last assignment to `module.exports` that the pass has met is one
    /// that it leaves to a later pass.
    Deferred,
    /// The last assignment to `module.exports` that the pass has met is one
    /// that it has taken away, and this stands for it.
    Found(DefaultExport),
}

/// The view of [`DefaultFinding`].
pub enum DefaultFindingView {
    Unset,
    Deferred,
    Found(DefaultExportView),
}

impl View for DefaultFinding {
    type V = DefaultFindingView;

    open spec fn view(&self) -> DefaultFindingView {
        match self {
            DefaultFinding::Unset => DefaultFindingView::Unset,
            DefaultFinding::Deferred => DefaultFindingView::Deferred,
            DefaultFinding::Found(d) => DefaultFindingView::Found(d@),
        }
    }
}

/// The declarations that one pass has made and not yet put into the module.
///
/// Imports go to the head of the module, hoisted constants and exports to its
/// end; each list is in the order in which the traversal found the matches.
/// The default export goes to the very end.
#[derive(Debug, PartialEq, Eq)]
pub struct Pending {
    pub imports: Vec<ImportDecl>,
    pub decls: Vec<VarDeclarator>,
    pub exports: Vec<ModuleItem>,
    pub default_export: DefaultFinding,
    pub warnings: Vec<Warning>,
}

/// The pending declarations as sequences of views.
#[verifier::ext_equal]
pub struct PendingView {
    pub imports: Seq<ImportDeclView>,
    pub decls: Seq<VarDeclaratorView>,
    pub exports: Seq<ModuleItemView>,
    pub default_export: DefaultFindingView,
    pub warnings: Seq<Warning>,
}

impl PendingView {
    /// Nothing is pending.
    pub open spec fn empty() -> PendingView {
        PendingView {
            imports: Seq::empty(),
            decls: Seq::empty(),
            exports: Seq::empty(),
            default_export: DefaultFindingView::Unset,
            warnings: Seq::empty(),
        }
    }

    /// What is pending after `self` and then `later`.
    pub open spec fn concat(self, later: PendingView) -> PendingView {
        PendingView {
            imports: self.imports + later.imports,
            decls: self.decls + later.decls,
            exports: self.exports + later.exports,
            default_export: match later.default_export {
                DefaultFindingView::Unset => self.default_export,
                finding => finding,
            },
            warnings: self.warnings + later.warnings,
        }
    }

    /// The number of synthetic names that the pending declarations hold: the
    /// state of the pass's counter.
    pub open spec fn issued(self) -> nat {
        self.imports.len() + self.decls.len()
    }

    /// One import is pending.
    pub open spec fn import(d: ImportDeclView) -> PendingView {
        PendingView { imports: seq![d], ..PendingView::empty() }
    }

    /// One hoisted constant is pending.
    pub open spec fn decl(d: VarDeclaratorView) -> PendingView {
        PendingView { decls: seq![d], ..PendingView::empty() }
    }

    /// One export is pending.
    pub open spec fn export(item: ModuleItemView) -> PendingView {
        PendingView { exports: seq![item], ..PendingView::empty() }
    }

    /// A default export is pending.
    pub open spec fn default_export(d: DefaultExportView) -> PendingView {
        PendingView { default_export: DefaultFindingView::Found(d), ..PendingView::empty() }
    }

    /// The default export is left to a later pass.
    pub open spec fn deferred() -> PendingView {
        PendingView { default_export: DefaultFindingView::Deferred, ..PendingView::empty() }
    }

    /// One warning is pending.
    pub open spec fn warning(w: Warning) -> PendingView {
        PendingView { warnings: seq![w], ..PendingView::empty() }
    }
}

/// The views of import declarations, in order.
pub open spec fn imports_view(s: Seq<ImportDecl>) -> Seq<ImportDeclView> {
    Seq::new(s.len(), |i: int| s[i]@)
}

impl View for Pending {
    type V = PendingView;

    open spec fn view(&self) -> PendingView {
        PendingView {
            imports: imports_view(self.imports@),
            decls: declarators_view(self.decls@),
            exports: items_view(self.exports@),
            default_export: self.default_export@,
            warnings: self.warnings@,
        }
    }
}

impl Pending {
    /// The context of a pass that has not started.
    pub fn new() -> (p: Pending)
        ensures
            p@ == PendingView::empty(),
    {
        let p = Pending {
            imports: Vec::new(),
            decls: Vec::new(),
            exports: Vec::new(),
            default_export: DefaultFinding::Unset,
            warnings: Vec::new(),
        };
        assert(p@ =~= PendingView::empty());
        p
    }

    /// The number of synthetic names issued so far. Two vector lengths
    /// cannot add up to the largest `u128`, so the next number always fits.
    pub fn issued(&self) -> (n: u128)
        ensures
            n == self@.issued(),
            n + 1 <= u128::MAX,
    {
        self.imports.len() as u128 + self.decls.len() as u128
    }

    /// Records an import.
    pub fn push_import(&mut self, d: ImportDecl)
        ensures
            final(self)@ == old(self)@.concat(PendingView::import(d@)),
    {
        self.imports.push(d);
        assert(self@ =~= old(self)@.concat(PendingView::import(d@)));
    }

    /// Records a constant to hoist.
    pub fn push_decl(&mut self, d: VarDeclarator)
        ensures
            final(self)@ == old(self)@.concat(PendingView::decl(d@)),
    {
        self.decls.push(d);
        assert(self@ =~= old(self)@.concat(PendingView::decl(d@)));
    }

    /// Records an export.
    pub fn push_export(&mut self, item: ModuleItem)
        ensures
            final(self)@ == old(self)@.concat(PendingView::export(item@)),
    {
        self.exports.push(item);
        assert(self@ =~= old(self)@.concat(PendingView::export(item@)));
    }

    /// Records the module's default export, in the place of the one recorded
    /// before, if there is one.
    pub fn set_default_export(&mut self, d: DefaultExport)
        ensures
            final(self)@ == old(self)@.concat(PendingView::default_export(d@)),
    {
        self.default_export = DefaultFinding::Found(d);
        assert(self@ =~= old(self)@.concat(PendingView::default_export(d@)));
    }

    /// Records that the module's default export is left to a later pass, in
    /// the place of the one recorded before, if there is one.
    pub fn defer_default_export(&mut self)
        ensures
            final(self)@ == old(self)@.concat(PendingView::deferred()),
    {
        self.default_export = DefaultFinding::Deferred;
        assert(self@ =~= old(self)@.concat(PendingView::deferred()));
    }

    /// Records a warning.
    pub fn push_warning(&mut self, w: Warning)
        ensures
            final(self)@ == old(self)@.concat(PendingView::warning(w)),
    {
        self.warnings.push(w);
        assert(self@ =~= old(self)@.concat(PendingView::warning(w)));
    }
}

/// What a rule, or a traversal, makes of one node: the node that stands in
/// its place, what it adds to the pass's pending declarations, and whether it
/// met a `require` that cannot be resolved. Where `fatal` holds the rewrite is
/// abandoned and the other two fields mean nothing.
pub struct Rewrite<T> {
    pub node: T,
    pub out: PendingView,
    pub fatal: bool,
}

/// The node stays and nothing is recorded.
pub open spec fn keep<T>(node: T) -> Rewrite<T> {
    Rewrite { node, out: PendingView::empty(), fatal: false }
}

/// The rewrite is abandoned at this node.
pub open spec fn abandon<T>(node: T) -> Rewrite<T> {
    Rewrite { node, out: PendingView::empty(), fatal: true }
}

/// The contract of every executable rule and traversal: `node` is the view of
/// what it returned (`None` for an error), `before` and `after` are the
/// contexts around the call, and `s` is what the spec function says.
pub open spec fn meets<T>(
    s: Rewrite<T>,
    before: PendingView,
    after: PendingView,
    node: Option<T>,
) -> bool {
    match node {
        Some(x) => !s.fatal && x =~~= s.node && after =~~= before.concat(s.out),
        None => s.fatal,
    }
}

/// The view of what an executable rule or traversal returned.
pub open spec fn viewed<T: View>(r: Result<T, RewriteError>) -> Option<T::V> {
    match r {
        Ok(x) => Some(x@),
        Err(_) => None,
    }
}

/// `import 'src';`
pub open spec fn side_effect_import(src: Seq<char>) -> ImportDeclView {
    ImportDeclView { specifiers: Seq::empty(), src }
}

/// `import * as local from 'src';`
pub open spec fn namespace_import(local: Seq<char>, src: Seq<char>) -> ImportDeclView {
    ImportDeclView { specifiers: seq![ImportSpecifierView::Namespace { local }], src }
}

/// `export { orig };` or `export { orig as exported };`
pub open spec fn single_export(orig: Seq<char>, exported: Option<Seq<char>>) -> ModuleItemView {
    ModuleItemView::ExportNamed(
        NamedExportView { specifiers: seq![ExportSpecifierView { orig, exported }] },
    )
}

/// The rule of [`Pass::RequireStatement`] on the expression of an expression
/// statement.
pub open spec fn require_statement(e: ExprView) -> Rewrite<StmtView> {
    match require_call(e) {
        RequireCall::Literal(src) => Rewrite {
            node: StmtView::Empty,
            out: PendingView::import(side_effect_import(src)),
            fatal: false,
        },
        RequireCall::Dynamic => abandon(StmtView::Expr(e)),
        RequireCall::NotRequire => keep(StmtView::Expr(e)),
    }
}

/// The rule of [`Pass::RequireIdent`] on one declarator. `None` as the node
/// says that the declarator leaves its declaration.
pub open spec fn ident_bound_require(d: VarDeclaratorView) -> Rewrite<Option<VarDeclaratorView>> {
    match (d.name, d.init) {
        (PatView::Ident(name), Some(init)) => match require_call(init) {
            RequireCall::Literal(src) => Rewrite {
                node: None,
                out: PendingView::import(namespace_import(name, src)),
                fatal: false,
            },
            RequireCall::Dynamic => abandon(Some(d)),
            RequireCall::NotRequire => keep(Some(d)),
        },
        _ => keep(Some(d)),
    }
}

/// The import specifier that one property of an object pattern stands for:
/// `{ a }` imports `a`, and `{ a: b }` imports `a` under the local name `b`.
/// A property with a default value, a nested pattern, a key that is no
/// identifier, or a rest element stands for none.
pub open spec fn named_import(p: ObjectPatPropView) -> Option<ImportSpecifierView> {
    match p {
        ObjectPatPropView::Assign { name, default_value: None } => Some(
            ImportSpecifierView::Named { local: name, imported: None },
        ),
        ObjectPatPropView::KeyValue { key: KeyView::Ident(k), value: PatView::Ident(v) } => Some(
            ImportSpecifierView::Named { local: v, imported: Some(k) },
        ),
        _ => None,
    }
}

/// Every property of the pattern stands for an import specifier.
pub open spec fn pure_destructuring(props: Seq<ObjectPatPropView>) -> bool {
    forall|i: int| 0 <= i < props.len() ==> (#[trigger] named_import(props[i])) is Some
}

/// The import specifiers that the properties of a pure pattern stand for, in
/// order.
pub open spec fn named_imports(props: Seq<ObjectPatPropView>) -> Seq<ImportSpecifierView> {
    Seq::new(props.len(), |i: int| named_import(props[i])->Some_0)
}

/// The rule of [`Pass::PureDestructuredRequire`] on one declarator.
pub open spec fn destructured_require(d: VarDeclaratorView) -> Rewrite<
    Option<VarDeclaratorView>,
> {
    match d.init {
        Some(init) => match require_call(init) {
            RequireCall::Literal(src) => match d.name {
                PatView::Object(props) => if pure_destructuring(props) {
                    Rewrite {
                        node: None,
                        out: PendingView::import(
                            ImportDeclView { specifiers: named_imports(props), src },
                        ),
                        fatal: false,
                    }
                } else {
                    keep(Some(d))
                },
                _ => keep(Some(d)),
            },
            RequireCall::Dynamic => abandon(Some(d)),
            RequireCall::NotRequire => keep(Some(d)),
        },
        None => keep(Some(d)),
    }
}

/// The rule of [`Pass::RequireFallback`] on one expression, where `issued`
/// synthetic names are in use.
pub open spec fn fallback_require(e: ExprView, issued: nat) -> Rewrite<ExprView> {
    match require_call(e) {
        RequireCall::Literal(src) => {
            let name = synthetic_name("_mod"@, issued + 1);
            Rewrite {
                node: ExprView::Ident(name),
                out: PendingView::import(namespace_import(name, src)),
                fatal: false,
            }
        },
        RequireCall::Dynamic => abandon(e),
        RequireCall::NotRequire => keep(e),
    }
}

/// The rule of [`Pass::ModuleExportsIdent`] on the expression of an
/// expression statement. `module.exports = name;` goes, and `name` is the
/// module's default export from here on. Any other assignment to
/// `module.exports` stays for a later pass, and what was found before it
/// counts no more.
pub open spec fn default_export_of_ident(e: ExprView) -> Rewrite<StmtView> {
    match e {
        ExprView::Assign(a) => if is_export_default(a) {
            match *a.right {
                ExprView::Ident(name) => Rewrite {
                    node: StmtView::Empty,
                    out: PendingView::default_export(DefaultExportView::Named(name)),
                    fatal: false,
                },
                _ => Rewrite {
                    node: StmtView::Expr(e),
                    out: PendingView::deferred(),
                    fatal: false,
                },
            }
        } else {
            keep(StmtView::Expr(e))
        },
        _ => keep(StmtView::Expr(e)),
    }
}

/// The rule of [`Pass::ModuleExportsNamedExpr`] on the expression of an
/// expression statement.
pub open spec fn named_export_of_property(e: ExprView) -> Rewrite<StmtView> {
    match e {
        ExprView::Assign(a) => match export_property(a) {
            Some(name) => match *a.right {
                ExprView::Object(_) => keep(StmtView::Expr(e)),
                ExprView::Ident(value) => Rewrite {
                    node: StmtView::Empty,
                    out: PendingView::export(
                        single_export(
                            value,
                            if value == name {
                                None
                            } else {
                                Some(name)
                            },
                        ),
                    ),
                    fatal: false,
                },
                value => Rewrite {
                    node: StmtView::Empty,
                    out: PendingView::export(ModuleItemView::ExportConst { name, init: value }),
                    fatal: false,
                },
            },
            None => keep(StmtView::Expr(e)),
        },
        _ => keep(StmtView::Expr(e)),
    }
}

/// The rule of [`Pass::ModuleDefaultExport`] on the expression of an
/// expression statement: the assignment goes, and its value is the module's
/// default export from here on.
pub open spec fn default_export_of_value(e: ExprView) -> Rewrite<StmtView> {
    match e {
        ExprView::Assign(a) => if is_export_default(a) {
            Rewrite {
                node: StmtView::Empty,
                out: PendingView::default_export(DefaultExportView::Value(*a.right)),
                fatal: false,
            }
        } else {
            keep(StmtView::Expr(e))
        },
        _ => keep(StmtView::Expr(e)),
    }
}

/// The pass that turns `require('x');` into `import 'x';`.
#[derive(Debug, Clone, Copy, PartialEq, Eq)]
pub struct TransformRequireStatementVistor {}

impl TransformRequireStatementVistor {
    /// The pass, which keeps no state of its own: what it records goes into
    /// the context that its rule is given.
    pub fn new() -> (pass: Self)
        ensures
            pass == (TransformRequireStatementVistor {}),
    {
        TransformRequireStatementVistor {}
    }

    /// Applies the rule to the expression of an expression statement and
    /// returns the statement that stands in its place.
    pub fn visit_mut_expr_stmt(&self, ctx: &mut Pending, expr: Expr) -> (r: Result<
        Stmt,
        RewriteError,
    >)
        ensures
            meets(require_statement(expr@), old(ctx)@, final(ctx)@, viewed(r)),
    {
        match require_source(&expr) {
            Err(e) => Err(e),
            Ok(Some(src)) => {
                ctx.push_import(ImportDecl { specifiers: Vec::new(), src });
                Ok(Stmt::Empty)
            },
            Ok(None) => Ok(Stmt::Expr(expr)),
        }
    }
}

/// The view of what an executable rule on a declarator returned.
pub open spec fn viewed_declarator(r: Result<Option<VarDeclarator>, RewriteError>) -> Option<
    Option<VarDeclaratorView>,
> {
    match r {
        Ok(Some(d)) => Some(Some(d@)),
        Ok(None) => Some(None),
        Err(_) => None,
    }
}

/// The pass that turns `name = require('x')` into a namespace import.
#[derive(Debug, Clone, Copy, PartialEq, Eq)]
pub struct TransformRequireIdentVisitor {}

impl TransformRequireIdentVisitor {
    /// The pass, which keeps no state of its own: what it records goes into
    /// the context that its rule is given.
    pub fn new() -> (pass: Self)
        ensures
            pass == (TransformRequireIdentVisitor {}),
    {
        TransformRequireIdentVisitor {}
    }

    /// Applies the rule to one declarator and returns what stays of it.
    pub fn visit_mut_var_declarator(&self, ctx: &mut Pending, d: VarDeclarator) -> (r: Result<
        Option<VarDeclarator>,
        RewriteError,
    >)
        ensures
            meets(ident_bound_require(d@), old(ctx)@, final(ctx)@, viewed_declarator(r)),
    {
        let local = match &d.name {
            Pat::Ident(name) => name.clone(),
            _ => {
                return Ok(Some(d));
            },
        };
        let found = match &d.init {
            Some(init) => require_source(init)?,
            None => None,
        };
        match found {
            Some(src) => {
                let mut specifiers: Vec<ImportSpecifier> = Vec::new();
                specifiers.push(ImportSpecifier::Namespace { local });
                ctx.push_import(ImportDecl { specifiers, src });
                Ok(None)
            },
            None => Ok(Some(d)),
        }
    }
}

/// The pass that turns `{ a, b: c } = require('x')` into named imports.
#[derive(Debug, Clone, Copy, PartialEq, Eq)]
pub struct TransformPureDestructuredRequireVisitor {}

impl TransformPureDestructuredRequireVisitor {
    /// The pass, which keeps no state of its own: what it records goes into
    /// the context that its rule is given.
    pub fn new() -> (pass: Self)
        ensures
            pass == (TransformPureDestructuredRequireVisitor {}),
    {
        TransformPureDestructuredRequireVisitor {}
    }

    /// The import specifiers that the properties of an object pattern stand
    /// for, if every one of them stands for one.
    pub fn named_specifiers(&self, props: &Vec<ObjectPatProp>) -> (r: Option<Vec<ImportSpecifier>>)
        ensures
            r is Some <==> pure_destructuring(pat_props_view(props@)),
            r is Some ==> import_specifiers_view(r->Some_0@) == named_imports(
                pat_props_view(props@),
            ),
    {
        let mut specifiers: Vec<ImportSpecifier> = Vec::new();
        let mut i: usize = 0;
        while i < props.len()
            invariant
                i <= props.len(),
                specifiers.len() == i,
                forall|j: int|
                    0 <= j < i ==> (#[trigger] named_import(pat_props_view(props@)[j]))
                        == Some(specifiers[j]@),
            decreases props.len() - i,
        {
            let one = match &props[i] {
                ObjectPatProp::Assign { name, default_value: None } => Some(
                    ImportSpecifier::Named { local: name.clone(), imported: None },
                ),
                ObjectPatProp::KeyValue { key: Key::Ident(k), value: Pat::Ident(v) } => Some(
                    ImportSpecifier::Named { local: v.clone(), imported: Some(k.clone()) },
                ),
                _ => None,
            };
            match one {
                Some(s) => {
                    specifiers.push(s);
                },
                None => {
                    assert(named_import(pat_props_view(props@)[i as int]) is None);
                    return None;
                },
            }
            i = i + 1;
        }
        assert(import_specifiers_view(specifiers@) =~= named_imports(pat_props_view(props@)));
        Some(specifiers)
    }

    /// Applies the rule to one declarator and returns what stays of it.
    pub fn visit_mut_var_declarator(&self, ctx: &mut Pending, d: VarDeclarator) -> (r: Result<
        Option<VarDeclarator>,
        RewriteError,
    >)
        ensures
            meets(destructured_require(d@), old(ctx)@, final(ctx)@, viewed_declarator(r)),
    {
        let found = match &d.init {
            Some(init) => require_source(init)?,
            None => None,
        };
        let src = match found {
            Some(src) => src,
            None => {
                return Ok(Some(d));
            },
        };
        let named = match &d.name {
            Pat::Object(props) => self.named_specifiers(props),
            _ => None,
        };
        match named {
            Some(specifiers) => {
                ctx.push_import(ImportDecl { specifiers, src });
                Ok(None)
            },
            None => Ok(Some(d)),
        }
    }
}

/// The pass that replaces every remaining `require('x')` by a reference to a
/// synthetic namespace import.
#[derive(Debug, Clone, Copy, PartialEq, Eq)]
pub struct TransformRequireFallback {}

impl TransformRequireFallback {
    /// The pass, which keeps no state of its own: what it records goes into
    /// the context that its rule is given.
    pub fn new() -> (pass: Self)
        ensures
            pass == (TransformRequireFallback {}),
    {
        TransformRequireFallback {}
    }

    /// Applies the rule to one expression and returns the expression that
    /// stands in its place.
    pub fn visit_mut_expr(&self, ctx: &mut Pending, expr: Expr) -> (r: Result<
        Expr,
        RewriteError,
    >)
        ensures
            meets(
                fallback_require(expr@, old(ctx)@.issued()),
                old(ctx)@,
                final(ctx)@,
                viewed(r),
            ),
    {
        match require_source(&expr)? {
            Some(src) => {
                let name = synthetic_ident("_mod", ctx.issued() + 1);
                let mut specifiers: Vec<ImportSpecifier> = Vec::new();
                specifiers.push(ImportSpecifier::Namespace { local: name.clone() });
                ctx.push_import(ImportDecl { specifiers, src });
                Ok(Expr::Ident(name))
            },
            None => Ok(expr),
        }
    }
}

/// `export { orig };` or `export { orig as exported };`
pub fn export_one(orig: String, exported: Option<String>) -> (item: ModuleItem)
    ensures
        item@ == single_export(
            orig@,
            match exported {
                Some(s) => Some(s@),
                None => None,
            },
        ),
{
    let mut specifiers: Vec<ExportSpecifier> = Vec::new();
    specifiers.push(ExportSpecifier { orig, exported });
    let named = NamedExport { specifiers };
    assert(named@ =~~= NamedExportView {
        specifiers: seq![
            ExportSpecifierView {
                orig: orig@,
                exported: match exported {
                    Some(s) => Some(s@),
                    None => None,
                },
            },
        ],
    });
    ModuleItem::ExportNamed(named)
}

/// The pass that turns `module.exports = name;` into a named and a default
/// export of `name`.
#[derive(Debug, Clone, Copy, PartialEq, Eq)]
pub struct TransformModuleExportsIdentVisitor {}

impl TransformModuleExportsIdentVisitor {
    /// The pass, which keeps no state of its own: what it records goes into
    /// the context that its rule is given.
    pub fn new() -> (pass: Self)
        ensures
            pass == (TransformModuleExportsIdentVisitor {}),
    {
        TransformModuleExportsIdentVisitor {}
    }

    /// Applies the rule to the expression of an expression statement and
    /// returns the statement that stands in its place.
    pub fn visit_mut_assign_expr(&self, ctx: &mut Pending, expr: Expr) -> (r: Result<
        Stmt,
        RewriteError,
    >)
        ensures
            r is Ok,
            meets(default_export_of_ident(expr@), old(ctx)@, final(ctx)@, viewed(r)),
    {
        let assigned = match &expr {
            Expr::Assign(a) => if targets_module_exports(a) {
                match &*a.right {
                    Expr::Ident(name) => Some(Some(name.clone())),
                    _ => Some(None),
                }
            } else {
                None
            },
            _ => None,
        };
        match assigned {
            Some(Some(name)) => {
                ctx.set_default_export(DefaultExport::Named(name));
                Ok(Stmt::Empty)
            },
            Some(None) => {
                ctx.defer_default_export();
                Ok(Stmt::Expr(expr))
            },
            None => Ok(Stmt::Expr(expr)),
        }
    }
}

/// The pass that turns `exports.name = value;` and
/// `module.exports.name = value;` into a named export of `name`.
#[derive(Debug, Clone, Copy, PartialEq, Eq)]
pub struct TransformModuleExportsNamedExprVisitor {}

impl TransformModuleExportsNamedExprVisitor {
    /// The pass, which keeps no state of its own: what it records goes into
    /// the context that its rule is given.
    pub fn new() -> (pass: Self)
        ensures
            pass == (TransformModuleExportsNamedExprVisitor {}),
    {
        TransformModuleExportsNamedExprVisitor {}
    }

    /// Applies the rule to the expression of an expression statement and
    /// returns the statement that stands in its place.
    pub fn visit_mut_assign_expr(&self, ctx: &mut Pending, expr: Expr) -> (r: Result<
        Stmt,
        RewriteError,
    >)
        ensures
            r is Ok,
            meets(named_export_of_property(expr@), old(ctx)@, final(ctx)@, viewed(r)),
    {
        let target = match &expr {
            Expr::Assign(a) => match &*a.right {
                Expr::Object(_) => None,
                _ => exported_property(a),
            },
            _ => None,
        };
        let name = match target {
            Some(name) => name,
            None => {
                return Ok(Stmt::Expr(expr));
            },
        };
        match expr {
            Expr::Assign(a) => {
                match *a.right {
                    Expr::Ident(value) => {
                        let exported = if value == name {
                            None
                        } else {
                            Some(name)
                        };
                        ctx.push_export(export_one(value, exported));
                    },
                    value => {
                        ctx.push_export(ModuleItem::ExportConst { name, init: value });
                    },
                }
                Ok(Stmt::Empty)
            },
            _ => unreached(),
        }
    }
}

/// The pass that turns every remaining `module.exports = value;` into
/// `export default value;`.
#[derive(Debug, Clone, Copy, PartialEq, Eq)]
pub struct TransformModuleDefaultExport {}

impl TransformModuleDefaultExport {
    /// The pass, which keeps no state of its own: what it records goes into
    /// the context that its rule is given.
    pub fn new() -> (pass: Self)
        ensures
            pass == (TransformModuleDefaultExport {}),
    {
        TransformModuleDefaultExport {}
    }

    /// Applies the rule to the expression of an expression statement and
    /// returns the statement that stands in its place.
    pub fn visit_mut_assign_expr(&self, ctx: &mut Pending, expr: Expr) -> (r: Result<
        Stmt,
        RewriteError,
    >)
        ensures
            r is Ok,
            meets(default_export_of_value(expr@), old(ctx)@, final(ctx)@, viewed(r)),
    {
        let hit = match &expr {
            Expr::Assign(a) => targets_module_exports(a),
            _ => false,
        };
        if !hit {
            return Ok(Stmt::Expr(expr));
        }
        match expr {
            Expr::Assign(a) => {
                ctx.set_default_export(DefaultExport::Value(*a.right));
                Ok(Stmt::Empty)
            },
            _ => unreached(),
        }
    }
}

/// A name under which a binding can be exported: a valid identifier that is
/// not empty.
pub open spec fn exportable(name: Seq<char>) -> bool {
    name.len() > 0 && valid_identifier(name)
}

/// The name under which one property of an exported object literal is
/// exported. A spread, a getter, a setter, a method, a computed or numeric
/// key, an empty key and a key that is no valid identifier have none.
pub open spec fn exported_name(p: PropView) -> Option<Seq<char>> {
    match p {
        PropView::Shorthand(name) => if exportable(name) {
            Some(name)
        } else {
            None
        },
        PropView::KeyValue { key: KeyView::Ident(k), .. } => if exportable(k) {
            Some(k)
        } else {
            None
        },
        PropView::KeyValue { key: KeyView::Str(k), .. } => if exportable(k) {
            Some(k)
        } else {
            None
        },
        _ => None,
    }
}

/// Whether a binding can be exported under `name`.
pub fn is_exportable(name: &str) -> (b: bool)
    ensures
        b == exportable(name@),
{
    !name.is_empty() && is_valid_identifier(name)
}

/// Every property of the object literal can be exported by name.
pub open spec fn pure_object(props: Seq<PropView>) -> bool {
    forall|i: int| 0 <= i < props.len() ==> (#[trigger] exported_name(props[i])) is Some
}

/// What the properties of an exported object literal expand to.
#[verifier::ext_equal]
pub struct Expansion {
    /// One export specifier per property, in order.
    pub specifiers: Seq<ExportSpecifierView>,
    /// One constant per property whose value is not a bare identifier.
    pub decls: Seq<VarDeclaratorView>,
}

/// The expansion of `props`, where `issued` synthetic names are in use.
///
/// `{ a }` exports `a`; `{ k: v }` with an identifier `v` exports `v as k`;
/// `{ k: <expr> }` declares the constant `_k$N = <expr>`, with the next free
/// `N`, and exports it as `k`.
pub open spec fn expand_object(props: Seq<PropView>, issued: nat) -> Expansion
    decreases props.len(),
{
    if props.len() == 0 {
        Expansion { specifiers: Seq::empty(), decls: Seq::empty() }
    } else {
        let prev = expand_object(props.drop_last(), issued);
        match props.last() {
            PropView::Shorthand(name) => Expansion {
                specifiers: prev.specifiers.push(
                    ExportSpecifierView { orig: name, exported: None },
                ),
                decls: prev.decls,
            },
            PropView::KeyValue { key, value } => {
                let k = exported_name(props.last())->Some_0;
                match value {
                    ExprView::Ident(v) => Expansion {
                        specifiers: prev.specifiers.push(
                            ExportSpecifierView { orig: v, exported: Some(k) },
                        ),
                        decls: prev.decls,
                    },
                    _ => {
                        let fresh = synthetic_name("_"@ + k, issued + prev.decls.len() + 1);
                        Expansion {
                            specifiers: prev.specifiers.push(
                                ExportSpecifierView { orig: fresh, exported: Some(k) },
                            ),
                            decls: prev.decls.push(
                                VarDeclaratorView {
                                    name: PatView::Ident(fresh),
                                    init: Some(value),
                                },
                            ),
                        }
                    },
                }
            },
            PropView::Other(_) => prev,
        }
    }
}

/// The rule of [`Pass::ExportDefaultObject`] on the expression of an
/// expression statement, where `issued` synthetic names are in use.
pub open spec fn export_of_object(e: ExprView, issued: nat) -> Rewrite<StmtView> {
    match e {
        ExprView::Assign(a) => match *a.right {
            ExprView::Object(props) => if !is_export_default(a) {
                keep(StmtView::Expr(e))
            } else if pure_object(props) {
                let x = expand_object(props, issued);
                Rewrite {
                    node: StmtView::Empty,
                    out: PendingView {
                        decls: x.decls,
                        exports: seq![
                            ModuleItemView::ExportNamed(
                                NamedExportView { specifiers: x.specifiers },
                            ),
                        ],
                        ..PendingView::empty()
                    },
                    fatal: false,
                }
            } else {
                Rewrite {
                    node: StmtView::Expr(e),
                    out: PendingView::warning(Warning::ImpureDefaultExport),
                    fatal: false,
                }
            },
            _ => keep(StmtView::Expr(e)),
        },
        _ => keep(StmtView::Expr(e)),
    }
}

/// The pass that turns `module.exports = { .. };` into named exports.
#[derive(Debug, Clone, Copy, PartialEq, Eq)]
pub struct TransformExportDefaultObject {}

impl TransformExportDefaultObject {
    /// The pass, which keeps no state of its own: what it records goes into
    /// the context that its rule is given.
    pub fn new() -> (pass: Self)
        ensures
            pass == (TransformExportDefaultObject {}),
    {
        TransformExportDefaultObject {}
    }

    /// Whether every property of an object literal can be exported by name.
    pub fn is_pure_object(&self, props: &Vec<Prop>) -> (b: bool)
        ensures
            b == pure_object(props_view(props@)),
    {
        let mut i: usize = 0;
        while i < props.len()
            invariant
                i <= props.len(),
                forall|j: int|
                    0 <= j < i ==> (#[trigger] exported_name(props_view(props@)[j])) is Some,
            decreases props.len() - i,
        {
            let ok = match &props[i] {
                Prop::Shorthand(name) => is_exportable(name.as_str()),
                Prop::KeyValue { key: Key::Ident(k), .. } => is_exportable(k.as_str()),
                Prop::KeyValue { key: Key::Str(k), .. } => is_exportable(k.as_str()),
                _ => false,
            };
            if !ok {
                assert(exported_name(props_view(props@)[i as int]) is None);
                return false;
            }
            i = i + 1;
        }
        true
    }

    /// Expands the properties of a pure object literal: records the constants
    /// that it needs and returns the export specifiers.
    pub fn expand(&self, ctx: &mut Pending, props: Vec<Prop>) -> (specifiers: Vec<ExportSpecifier>)
        requires
            pure_object(props_view(props@)),
        ensures
            ({
                let x = expand_object(props_view(props@), old(ctx)@.issued());
                &&& export_specifiers_view(specifiers@) == x.specifiers
                &&& final(ctx)@ == old(ctx)@.concat(
                    PendingView { decls: x.decls, ..PendingView::empty() },
                )
            }),
    {
        let ghost raw = props@;
        let ghost all = props_view(raw);
        let ghost start = ctx@;
        let mut specifiers: Vec<ExportSpecifier> = Vec::new();
        assert(all.take(0) =~= Seq::<PropView>::empty());
        for p in it: props
            invariant
                it.seq() == raw,
                all == props_view(raw),
                pure_object(all),
                ({
                    let x = expand_object(all.take(it.index() as int), start.issued());
                    &&& export_specifiers_view(specifiers@) == x.specifiers
                    &&& ctx@ == start.concat(PendingView { decls: x.decls, ..PendingView::empty() })
                }),
        {
            let ghost done = it.index() as int;
            proof {
                assert(p@ == all[done]);
                assert(all.take(done + 1).drop_last() =~= all.take(done));
                assert(all.take(done + 1).last() == all[done]);
                assert(exported_name(all[done]) is Some);
            }
            match p {
                Prop::Shorthand(name) => {
                    specifiers.push(ExportSpecifier { orig: name, exported: None });
                },
                Prop::KeyValue { key, value } => {
                    let k = match key {
                        Key::Ident(k) => k,
                        Key::Str(k) => k,
                        _ => unreached(),
                    };
                    match value {
                        Expr::Ident(v) => {
                            specifiers.push(ExportSpecifier { orig: v, exported: Some(k) });
                        },
                        value => {
                            let mut prefix = String::from_str("_");
                            prefix.append(k.as_str());
                            let fresh = synthetic_ident(prefix.as_str(), ctx.issued() + 1);
                            ctx.push_decl(
                                VarDeclarator {
                                    name: Pat::Ident(fresh.clone()),
                                    init: Some(value),
                                },
                            );
                            specifiers.push(ExportSpecifier { orig: fresh, exported: Some(k) });
                        },
                    }
                },
                Prop::Other(_) => {
                    assert(false);
                },
            }
            proof {
                let x = expand_object(all.take(done + 1), start.issued());
                assert(export_specifiers_view(specifiers@) =~~= x.specifiers);
                assert(ctx@ =~~= start.concat(
                    PendingView { decls: x.decls, ..PendingView::empty() },
                ));
            }
        }
        assert(all.take(raw.len() as int) =~= all);
        specifiers
    }

    /// Applies the rule to the expression of an expression statement and
    /// returns the statement that stands in its place.
    pub fn visit_mut_assign_expr(&self, ctx: &mut Pending, expr: Expr) -> (r: Result<
        Stmt,
        RewriteError,
    >)
        ensures
            r is Ok,
            meets(
                export_of_object(expr@, old(ctx)@.issued()),
                old(ctx)@,
                final(ctx)@,
                viewed(r),
            ),
    {
        let pure = match &expr {
            Expr::Assign(a) => match &*a.right {
                Expr::Object(props) => if targets_module_exports(a) {
                    Some(self.is_pure_object(props))
                } else {
                    None
                },
                _ => None,
            },
            _ => None,
        };
        match pure {
            None => Ok(Stmt::Expr(expr)),
            Some(false) => {
                ctx.push_warning(Warning::ImpureDefaultExport);
                Ok(Stmt::Expr(expr))
            },
            Some(true) => match expr {
                Expr::Assign(a) => match *a.right {
                    Expr::Object(props) => {
                        let specifiers = self.expand(ctx, props);
                        ctx.push_export(ModuleItem::ExportNamed(NamedExport { specifiers }));
                        Ok(Stmt::Empty)
                    },
                    _ => unreached(),
                },
                _ => unreached(),
            },
        }
    }
}

} // verus!
