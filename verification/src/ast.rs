//! The syntax tree of one source module, as far as the rewrite reads it.
//!
//! Every shape that a rewrite rule inspects or produces has a node of its
//! own. All other syntax is carried as [`Other`]: a handle that the host
//! compiler understands, together with the sub-trees that a traversal still
//! has to visit. Each executable type comes with a mathematical view in which
//! strings are sequences of characters and vectors are sequences; the
//! contracts of the library are stated over these views.
use vstd::prelude::*;

verus! {

/// Syntax that no rule interprets, kept by the host's handle `tag`.
///
/// `parts` are its immediate sub-trees in source order. A traversal rewrites
/// inside them and leaves `tag`, the number of parts and the sort of each
/// part as they are.
#[derive(Debug, PartialEq, Eq)]
pub struct Other {
    pub tag: u64,
    pub parts: Vec<Part>,
}

/// One sub-tree of an [`Other`] node.
#[derive(Debug, PartialEq, Eq)]
pub enum Part {
    Expr(Expr),
    Pat(Pat),
    /// A statement in a position that holds exactly one statement.
    Stmt(Stmt),
    /// A statement list, such as the body of a block or of a function.
    Block(Vec<Stmt>),
}

/// The key of an object property, of a destructuring property or of a member
/// access.
#[derive(Debug, PartialEq, Eq)]
pub enum Key {
    Ident(String),
    /// A quoted key, by its value.
    Str(String),
    Computed(Box<Expr>),
    /// A numeric key or a private name.
    Other(Other),
}

/// `callee(args..)`. A spread argument is carried as [`Expr::Other`].
#[derive(Debug, PartialEq, Eq)]
pub struct CallExpr {
    pub callee: Box<Expr>,
    pub args: Vec<Expr>,
}

/// `obj.prop` or `obj[prop]`.
#[derive(Debug, PartialEq, Eq)]
pub struct MemberExpr {
    pub obj: Box<Expr>,
    pub prop: Key,
}

/// `left = right`, with the plain assignment operator.
#[derive(Debug, PartialEq, Eq)]
pub struct AssignExpr {
    pub left: Pat,
    pub right: Box<Expr>,
}

/// One property of an object literal.
#[derive(Debug, PartialEq, Eq)]
pub enum Prop {
    /// `{ a }`
    Shorthand(String),
    /// `{ key: value }`
    KeyValue { key: Key, value: Expr },
    /// A spread element, a getter, a setter or a method.
    Other(Other),
}

/// An expression.
#[derive(Debug, PartialEq, Eq)]
pub enum Expr {
    Ident(String),
    /// A string literal, by its value.
    Str(String),
    Call(CallExpr),
    Member(MemberExpr),
    Assign(AssignExpr),
    Object(Vec<Prop>),
    Other(Other),
}

/// One property of an object pattern.
#[derive(Debug, PartialEq, Eq)]
pub enum ObjectPatProp {
    /// `{ name }` or, with a default value, `{ name = default_value }`.
    Assign { name: String, default_value: Option<Expr> },
    /// `{ key: value }`
    KeyValue { key: Key, value: Pat },
    /// A rest element.
    Other(Other),
}

/// A binding pattern or an assignment target.
#[derive(Debug, PartialEq, Eq)]
pub enum Pat {
    Ident(String),
    Object(Vec<ObjectPatProp>),
    /// An assignment target that is an expression, such as a member access.
    Expr(Box<Expr>),
    /// An array pattern, a rest element or a pattern with a default value.
    Other(Other),
}

/// `var`, `let` or `const`.
#[derive(Debug, Clone, Copy, PartialEq, Eq)]
pub enum VarDeclKind {
    Var,
    Let,
    Const,
}

/// `name = init` inside a variable declaration.
#[derive(Debug, PartialEq, Eq)]
pub struct VarDeclarator {
    pub name: Pat,
    pub init: Option<Expr>,
}

/// A variable declaration.
#[derive(Debug, PartialEq, Eq)]
pub struct VarDecl {
    pub kind: VarDeclKind,
    pub decls: Vec<VarDeclarator>,
}

/// A statement.
#[derive(Debug, PartialEq, Eq)]
pub enum Stmt {
    /// The empty statement. A rule leaves it where it has taken a statement
    /// away; the traversal drops it from every statement list.
    Empty,
    Expr(Expr),
    Var(VarDecl),
    Other(Other),
}

/// One binding of an import declaration. Other forms of import are carried
/// as [`ModuleItem::Other`].
#[derive(Debug, PartialEq, Eq)]
pub enum ImportSpecifier {
    /// `import { local }` or `import { imported as local }`
    Named { local: String, imported: Option<String> },
    /// `import * as local`
    Namespace { local: String },
}

/// `import <specifiers> from 'src'`; without specifiers, `import 'src'`.
#[derive(Debug, PartialEq, Eq)]
pub struct ImportDecl {
    pub specifiers: Vec<ImportSpecifier>,
    pub src: String,
}

/// `orig`, or `orig as exported`, inside `export { .. }`.
#[derive(Debug, PartialEq, Eq)]
pub struct ExportSpecifier {
    pub orig: String,
    pub exported: Option<String>,
}

/// `export { <specifiers> }`
#[derive(Debug, PartialEq, Eq)]
pub struct NamedExport {
    pub specifiers: Vec<ExportSpecifier>,
}

/// A statement or a module declaration at the top level of a module.
#[derive(Debug, PartialEq, Eq)]
pub enum ModuleItem {
    Stmt(Stmt),
    Import(ImportDecl),
    ExportNamed(NamedExport),
    /// `export default <expr>`
    ExportDefault(Expr),
    /// `export const name = init`
    ExportConst { name: String, init: Expr },
    /// Any other module declaration.
    Other(Other),
}

/// One source module: its top-level items in order.
#[derive(Debug, PartialEq, Eq)]
pub struct Module {
    pub body: Vec<ModuleItem>,
}

/// The view of [`Other`].
pub struct OtherView {
    pub tag: u64,
    pub parts: Seq<PartView>,
}

/// The view of [`Part`].
pub enum PartView {
    Expr(ExprView),
    Pat(PatView),
    Stmt(StmtView),
    Block(Seq<StmtView>),
}

/// The view of [`Key`].
pub enum KeyView {
    Ident(Seq<char>),
    Str(Seq<char>),
    Computed(Box<ExprView>),
    Other(OtherView),
}

/// The view of [`CallExpr`].
pub struct CallExprView {
    pub callee: Box<ExprView>,
    pub args: Seq<ExprView>,
}

/// The view of [`MemberExpr`].
pub struct MemberExprView {
    pub obj: Box<ExprView>,
    pub prop: KeyView,
}

/// The view of [`AssignExpr`].
pub struct AssignExprView {
    pub left: PatView,
    pub right: Box<ExprView>,
}

/// The view of [`Prop`].
pub enum PropView {
    Shorthand(Seq<char>),
    KeyValue { key: KeyView, value: ExprView },
    Other(OtherView),
}

/// The view of [`Expr`].
pub enum ExprView {
    Ident(Seq<char>),
    Str(Seq<char>),
    Call(CallExprView),
    Member(MemberExprView),
    Assign(AssignExprView),
    Object(Seq<PropView>),
    Other(OtherView),
}

/// The view of [`ObjectPatProp`].
pub enum ObjectPatPropView {
    Assign { name: Seq<char>, default_value: Option<ExprView> },
    KeyValue { key: KeyView, value: PatView },
    Other(OtherView),
}

/// The view of [`Pat`].
pub enum PatView {
    Ident(Seq<char>),
    Object(Seq<ObjectPatPropView>),
    Expr(Box<ExprView>),
    Other(OtherView),
}

/// The view of [`VarDeclarator`].
pub struct VarDeclaratorView {
    pub name: PatView,
    pub init: Option<ExprView>,
}

/// The view of [`VarDecl`].
pub struct VarDeclView {
    pub kind: VarDeclKind,
    pub decls: Seq<VarDeclaratorView>,
}

/// The view of [`Stmt`].
pub enum StmtView {
    Empty,
    Expr(ExprView),
    Var(VarDeclView),
    Other(OtherView),
}

/// The view of [`ImportSpecifier`].
#[verifier::ext_equal]
pub enum ImportSpecifierView {
    Named { local: Seq<char>, imported: Option<Seq<char>> },
    Namespace { local: Seq<char> },
}

/// The view of [`ImportDecl`].
#[verifier::ext_equal]
pub struct ImportDeclView {
    pub specifiers: Seq<ImportSpecifierView>,
    pub src: Seq<char>,
}

/// The view of [`ExportSpecifier`].
#[verifier::ext_equal]
pub struct ExportSpecifierView {
    pub orig: Seq<char>,
    pub exported: Option<Seq<char>>,
}

/// The view of [`NamedExport`].
#[verifier::ext_equal]
pub struct NamedExportView {
    pub specifiers: Seq<ExportSpecifierView>,
}

/// The view of [`ModuleItem`].
pub enum ModuleItemView {
    Stmt(StmtView),
    Import(ImportDeclView),
    ExportNamed(NamedExportView),
    ExportDefault(ExprView),
    ExportConst { name: Seq<char>, init: ExprView },
    Other(OtherView),
}

/// The view of [`Module`].
#[verifier::ext_equal]
pub struct ModuleView {
    pub body: Seq<ModuleItemView>,
}

/// The views of parts, in order.
pub open spec fn parts_view(s: Seq<Part>) -> Seq<PartView>
    decreases s,
{
    Seq::new(
        s.len(),
        |i: int|
            if 0 <= i < s.len() {
                part_view(s[i])
            } else {
                arbitrary()
            },
    )
}

/// The views of statements, in order.
pub open spec fn stmts_view(s: Seq<Stmt>) -> Seq<StmtView>
    decreases s,
{
    Seq::new(
        s.len(),
        |i: int|
            if 0 <= i < s.len() {
                stmt_view(s[i])
            } else {
                arbitrary()
            },
    )
}

/// The views of expressions, in order.
pub open spec fn exprs_view(s: Seq<Expr>) -> Seq<ExprView>
    decreases s,
{
    Seq::new(
        s.len(),
        |i: int|
            if 0 <= i < s.len() {
                expr_view(s[i])
            } else {
                arbitrary()
            },
    )
}

/// The views of properties, in order.
pub open spec fn props_view(s: Seq<Prop>) -> Seq<PropView>
    decreases s,
{
    Seq::new(
        s.len(),
        |i: int|
            if 0 <= i < s.len() {
                prop_view(s[i])
            } else {
                arbitrary()
            },
    )
}

/// The views of pattern properties, in order.
pub open spec fn pat_props_view(s: Seq<ObjectPatProp>) -> Seq<ObjectPatPropView>
    decreases s,
{
    Seq::new(
        s.len(),
        |i: int|
            if 0 <= i < s.len() {
                pat_prop_view(s[i])
            } else {
                arbitrary()
            },
    )
}

/// The views of declarators, in order.
pub open spec fn declarators_view(s: Seq<VarDeclarator>) -> Seq<VarDeclaratorView>
    decreases s,
{
    Seq::new(
        s.len(),
        |i: int|
            if 0 <= i < s.len() {
                declarator_view(s[i])
            } else {
                arbitrary()
            },
    )
}

/// The view of [`Other`] as a value.
pub open spec fn other_view(o: Other) -> OtherView
    decreases o,
{
    OtherView {
        tag: o.tag,
        parts: parts_view(o.parts@),
    }
}

/// The view of [`Part`] as a value.
pub open spec fn part_view(p: Part) -> PartView
    decreases p,
{
    match p {
        Part::Expr(e) => PartView::Expr(expr_view(e)),
        Part::Pat(q) => PartView::Pat(pat_view(q)),
        Part::Stmt(s) => PartView::Stmt(stmt_view(s)),
        Part::Block(b) => PartView::Block(
            stmts_view(b@),
        ),
    }
}

/// The view of [`Key`] as a value.
pub open spec fn key_view(k: Key) -> KeyView
    decreases k,
{
    match k {
        Key::Ident(s) => KeyView::Ident(s@),
        Key::Str(s) => KeyView::Str(s@),
        Key::Computed(e) => KeyView::Computed(Box::new(expr_view(*e))),
        Key::Other(o) => KeyView::Other(other_view(o)),
    }
}

/// The view of [`CallExpr`] as a value.
pub open spec fn call_view(c: CallExpr) -> CallExprView
    decreases c,
{
    CallExprView {
        callee: Box::new(expr_view(*c.callee)),
        args: exprs_view(c.args@),
    }
}

/// The view of [`MemberExpr`] as a value.
pub open spec fn member_view(m: MemberExpr) -> MemberExprView
    decreases m,
{
    MemberExprView { obj: Box::new(expr_view(*m.obj)), prop: key_view(m.prop) }
}

/// The view of [`AssignExpr`] as a value.
pub open spec fn assign_view(a: AssignExpr) -> AssignExprView
    decreases a,
{
    AssignExprView { left: pat_view(a.left), right: Box::new(expr_view(*a.right)) }
}

/// The view of [`Prop`] as a value.
pub open spec fn prop_view(p: Prop) -> PropView
    decreases p,
{
    match p {
        Prop::Shorthand(s) => PropView::Shorthand(s@),
        Prop::KeyValue { key, value } => PropView::KeyValue {
            key: key_view(key),
            value: expr_view(value),
        },
        Prop::Other(o) => PropView::Other(other_view(o)),
    }
}

/// The view of [`Expr`] as a value.
pub open spec fn expr_view(e: Expr) -> ExprView
    decreases e,
{
    match e {
        Expr::Ident(s) => ExprView::Ident(s@),
        Expr::Str(s) => ExprView::Str(s@),
        Expr::Call(c) => ExprView::Call(call_view(c)),
        Expr::Member(m) => ExprView::Member(member_view(m)),
        Expr::Assign(a) => ExprView::Assign(assign_view(a)),
        Expr::Object(props) => ExprView::Object(
            props_view(props@),
        ),
        Expr::Other(o) => ExprView::Other(other_view(o)),
    }
}

/// The view of an expression that may be absent.
pub open spec fn opt_expr_view(e: Option<Expr>) -> Option<ExprView>
    decreases e,
{
    match e {
        Some(x) => Some(expr_view(x)),
        None => None,
    }
}

/// The view of [`ObjectPatProp`] as a value.
pub open spec fn pat_prop_view(p: ObjectPatProp) -> ObjectPatPropView
    decreases p,
{
    match p {
        ObjectPatProp::Assign { name, default_value } => ObjectPatPropView::Assign {
            name: name@,
            default_value: opt_expr_view(default_value),
        },
        ObjectPatProp::KeyValue { key, value } => ObjectPatPropView::KeyValue {
            key: key_view(key),
            value: pat_view(value),
        },
        ObjectPatProp::Other(o) => ObjectPatPropView::Other(other_view(o)),
    }
}

/// The view of [`Pat`] as a value.
pub open spec fn pat_view(p: Pat) -> PatView
    decreases p,
{
    match p {
        Pat::Ident(s) => PatView::Ident(s@),
        Pat::Object(props) => PatView::Object(
            pat_props_view(props@),
        ),
        Pat::Expr(e) => PatView::Expr(Box::new(expr_view(*e))),
        Pat::Other(o) => PatView::Other(other_view(o)),
    }
}

/// The view of [`VarDeclarator`] as a value.
pub open spec fn declarator_view(d: VarDeclarator) -> VarDeclaratorView
    decreases d,
{
    VarDeclaratorView { name: pat_view(d.name), init: opt_expr_view(d.init) }
}

/// The view of [`VarDecl`] as a value.
pub open spec fn var_decl_view(d: VarDecl) -> VarDeclView
    decreases d,
{
    VarDeclView {
        kind: d.kind,
        decls: declarators_view(d.decls@),
    }
}

/// The view of [`Stmt`] as a value.
pub open spec fn stmt_view(s: Stmt) -> StmtView
    decreases s,
{
    match s {
        Stmt::Empty => StmtView::Empty,
        Stmt::Expr(e) => StmtView::Expr(expr_view(e)),
        Stmt::Var(d) => StmtView::Var(var_decl_view(d)),
        Stmt::Other(o) => StmtView::Other(other_view(o)),
    }
}

impl View for Other {
    type V = OtherView;

    open spec fn view(&self) -> OtherView {
        other_view(*self)
    }
}

impl View for Part {
    type V = PartView;

    open spec fn view(&self) -> PartView {
        part_view(*self)
    }
}

impl View for Key {
    type V = KeyView;

    open spec fn view(&self) -> KeyView {
        key_view(*self)
    }
}

impl View for CallExpr {
    type V = CallExprView;

    open spec fn view(&self) -> CallExprView {
        call_view(*self)
    }
}

impl View for MemberExpr {
    type V = MemberExprView;

    open spec fn view(&self) -> MemberExprView {
        member_view(*self)
    }
}

impl View for AssignExpr {
    type V = AssignExprView;

    open spec fn view(&self) -> AssignExprView {
        assign_view(*self)
    }
}

impl View for Prop {
    type V = PropView;

    open spec fn view(&self) -> PropView {
        prop_view(*self)
    }
}

impl View for Expr {
    type V = ExprView;

    open spec fn view(&self) -> ExprView {
        expr_view(*self)
    }
}

impl View for ObjectPatProp {
    type V = ObjectPatPropView;

    open spec fn view(&self) -> ObjectPatPropView {
        pat_prop_view(*self)
    }
}

impl View for Pat {
    type V = PatView;

    open spec fn view(&self) -> PatView {
        pat_view(*self)
    }
}

impl View for VarDeclarator {
    type V = VarDeclaratorView;

    open spec fn view(&self) -> VarDeclaratorView {
        declarator_view(*self)
    }
}

impl View for VarDecl {
    type V = VarDeclView;

    open spec fn view(&self) -> VarDeclView {
        var_decl_view(*self)
    }
}

impl View for Stmt {
    type V = StmtView;

    open spec fn view(&self) -> StmtView {
        stmt_view(*self)
    }
}

impl View for ImportSpecifier {
    type V = ImportSpecifierView;

    open spec fn view(&self) -> ImportSpecifierView {
        match self {
            ImportSpecifier::Named { local, imported } => ImportSpecifierView::Named {
                local: local@,
                imported: match imported {
                    Some(s) => Some(s@),
                    None => None,
                },
            },
            ImportSpecifier::Namespace { local } => ImportSpecifierView::Namespace {
                local: local@,
            },
        }
    }
}

/// The views of import specifiers, in order.
pub open spec fn import_specifiers_view(s: Seq<ImportSpecifier>) -> Seq<ImportSpecifierView> {
    Seq::new(s.len(), |i: int| s[i]@)
}

impl View for ImportDecl {
    type V = ImportDeclView;

    open spec fn view(&self) -> ImportDeclView {
        ImportDeclView {
            specifiers: import_specifiers_view(self.specifiers@),
            src: self.src@,
        }
    }
}

impl View for ExportSpecifier {
    type V = ExportSpecifierView;

    open spec fn view(&self) -> ExportSpecifierView {
        ExportSpecifierView {
            orig: self.orig@,
            exported: match self.exported {
                Some(s) => Some(s@),
                None => None,
            },
        }
    }
}

/// The views of export specifiers, in order.
pub open spec fn export_specifiers_view(s: Seq<ExportSpecifier>) -> Seq<ExportSpecifierView> {
    Seq::new(s.len(), |i: int| s[i]@)
}

impl View for NamedExport {
    type V = NamedExportView;

    open spec fn view(&self) -> NamedExportView {
        NamedExportView {
            specifiers: export_specifiers_view(self.specifiers@),
        }
    }
}

impl View for ModuleItem {
    type V = ModuleItemView;

    open spec fn view(&self) -> ModuleItemView {
        match self {
            ModuleItem::Stmt(s) => ModuleItemView::Stmt(s@),
            ModuleItem::Import(d) => ModuleItemView::Import(d@),
            ModuleItem::ExportNamed(n) => ModuleItemView::ExportNamed(n@),
            ModuleItem::ExportDefault(e) => ModuleItemView::ExportDefault(e@),
            ModuleItem::ExportConst { name, init } => ModuleItemView::ExportConst {
                name: name@,
                init: init@,
            },
            ModuleItem::Other(o) => ModuleItemView::Other(o@),
        }
    }
}

/// The views of module items, in order.
pub open spec fn items_view(s: Seq<ModuleItem>) -> Seq<ModuleItemView> {
    Seq::new(s.len(), |i: int| s[i]@)
}

impl View for Module {
    type V = ModuleView;

    open spec fn view(&self) -> ModuleView {
        ModuleView { body: items_view(self.body@) }
    }
}

} // verus!
