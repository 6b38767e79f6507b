//! The tree model that the rewriting engines work on.
//!
//! A module is an ordered list of [`Item`]s.  Only the shapes that the engines
//! inspect or build are modelled structurally; everything else is carried
//! through untouched as an opaque handle (`u64`), owned by the caller that
//! produced the tree.

use vstd::prelude::*;

verus! {

/// A name appearing in an import/export specifier: either a plain identifier
/// or a module export name given as a string literal.
#[derive(Debug, PartialEq, Eq)]
pub enum ModName {
    Ident(String),
    Str(String),
}

impl ModName {
    /// The text of the name, whichever form it has.
    pub open spec fn text(&self) -> Seq<char> {
        match self {
            ModName::Ident(s) => s@,
            ModName::Str(s) => s@,
        }
    }
}

/// A named import specifier: `import { imported as local }`.
/// `imported` is absent for the shorthand `import { local }`.
#[derive(Debug, PartialEq, Eq)]
pub struct ImportNamed {
    pub local: String,
    pub imported: Option<ModName>,
}

/// One specifier of an import declaration.  Namespace specifiers are opaque:
/// the engines never read or rewrite them.
#[derive(Debug, PartialEq, Eq)]
pub enum ImportSpec {
    Named(ImportNamed),
    DefaultImport(String),
    Opaque(u64),
}

/// `import { ... } from "src"`.
#[derive(Debug, PartialEq, Eq)]
pub struct ImportDecl {
    pub specifiers: Vec<ImportSpec>,
    pub src: String,
}

/// A named export specifier: `export { orig as exported }`.
/// `exported` is absent for the shorthand `export { orig }`.
#[derive(Debug, PartialEq, Eq)]
pub struct ExportNamedSpec {
    pub orig: ModName,
    pub exported: Option<ModName>,
}

impl ExportNamedSpec {
    /// The externally visible name of the export.
    pub open spec fn exported_text(&self) -> Seq<char> {
        match self.exported {
            Some(e) => e.text(),
            None => self.orig.text(),
        }
    }
}

/// One specifier of a named export.  Namespace specifiers are opaque.
#[derive(Debug, PartialEq, Eq)]
pub enum ExportSpec {
    Named(ExportNamedSpec),
    Opaque(u64),
}

/// `export { ... }` or `export { ... } from "src"`.
#[derive(Debug, PartialEq, Eq)]
pub struct NamedExport {
    pub specifiers: Vec<ExportSpec>,
    pub src: Option<String>,
}

/// The binding position of a variable declarator.  Destructuring patterns are
/// opaque: the engines only recognize plain identifier bindings.
#[derive(Debug, PartialEq, Eq)]
pub enum Binding {
    Ident(String),
    Opaque(u64),
}

/// `const`/`let`/`var`.
#[derive(Debug, PartialEq, Eq)]
pub enum VarKind {
    Const,
    Let,
    Var,
}

/// One declarator of a variable declaration.
#[derive(Debug)]
pub struct VarDeclarator {
    pub name: Binding,
    pub init: Option<Expr>,
}

/// A variable declaration with its ordered declarators.
#[derive(Debug)]
pub struct VarDecl {
    pub kind: VarKind,
    pub decls: Vec<VarDeclarator>,
}

/// A function declaration.  The parameter list and body are opaque: the
/// engines move them around but never look inside.
#[derive(Debug, PartialEq, Eq)]
pub struct FnDecl {
    pub ident: String,
    pub function: u64,
}

/// A class declaration with its member list.  Everything else of the class
/// — its heritage, decorators and type parameters — is opaque.
#[derive(Debug)]
pub struct ClassDecl {
    pub ident: String,
    pub members: Vec<ClassMember>,
    pub shell: u64,
}

/// A top-level declaration.
#[derive(Debug)]
pub enum Decl {
    Fn(FnDecl),
    Var(VarDecl),
    Class(ClassDecl),
    Opaque(u64),
}

/// The key of a class member.  Computed, private and string keys are opaque:
/// only members keyed by a literal identifier are recognized.
#[derive(Debug, PartialEq, Eq)]
pub enum MemberKey {
    Ident(String),
    Opaque(u64),
}

/// A class method, with an opaque function payload.
#[derive(Debug, PartialEq, Eq)]
pub struct ClassMethod {
    pub key: MemberKey,
    pub function: u64,
    pub is_static: bool,
}

/// A class property with an optional value expression.
#[derive(Debug)]
pub struct ClassProp {
    pub key: MemberKey,
    pub value: Option<Expr>,
    pub is_static: bool,
}

/// One member of a class body.
#[derive(Debug)]
pub enum ClassMember {
    Method(ClassMethod),
    Prop(ClassProp),
    Opaque(u64),
}

/// A top-level assignment statement `target = value`.  `plain` is true for
/// the plain `=` operator and false for every compound operator.
#[derive(Debug)]
pub struct AssignStmt {
    pub target: String,
    pub plain: bool,
    pub value: Expr,
}

/// A top-level statement.
#[derive(Debug)]
pub enum Stmt {
    Decl(Decl),
    Assign(AssignStmt),
    Opaque(u64),
}

/// A function expression, named or anonymous, with an opaque payload.
#[derive(Debug, PartialEq, Eq)]
pub struct FnExpr {
    pub ident: Option<String>,
    pub function: u64,
}

/// A class expression, named or anonymous, with the same opaque shell as a
/// class declaration.
#[derive(Debug)]
pub struct ClassExpr {
    pub ident: Option<String>,
    pub members: Vec<ClassMember>,
    pub shell: u64,
}

/// The declaration of `export default function ...` / `export default class ...`.
#[derive(Debug)]
pub enum DefaultDecl {
    Fn(FnExpr),
    Class(ClassExpr),
    Opaque(u64),
}

/// A literal.  Number literals carry their source text.
#[derive(Debug, PartialEq, Eq)]
pub enum Lit {
    Str(String),
    Bool(bool),
    Num(String),
    Opaque(u64),
}

/// An argument or array element, possibly spread.
#[derive(Debug)]
pub struct ExprOrSpread {
    pub spread: bool,
    pub expr: Expr,
}

/// The key of an object literal property.
#[derive(Debug, PartialEq, Eq)]
pub enum PropName {
    Ident(String),
    Str(String),
}

/// A `key: value` property of an object literal.
#[derive(Debug)]
pub struct KeyValueProp {
    pub key: PropName,
    pub value: Expr,
}

/// One entry of an object literal.
#[derive(Debug)]
pub enum PropOrSpread {
    KeyValue(KeyValueProp),
    Spread(Expr),
}

/// A call expression.
#[derive(Debug)]
pub struct CallExpr {
    pub callee: Box<Expr>,
    pub args: Vec<ExprOrSpread>,
}

/// An expression.  Only the shapes the engines build or inspect are
/// structural; everything else is opaque.  A member chain `a.b.c` is kept
/// flat as its ordered path of identifiers.
#[derive(Debug)]
pub enum Expr {
    Ident(String),
    Lit(Lit),
    Call(CallExpr),
    Member(Vec<String>),
    Array(Vec<ExprOrSpread>),
    Object(Vec<PropOrSpread>),
    Func(FnExpr),
    Class(ClassExpr),
    JsxElement(Box<Element>),
    JsxFragment(u64),
    Opaque(u64),
}

/// An XML-namespace style name `ns:name`.
#[derive(Debug, PartialEq, Eq)]
pub struct NsName {
    pub ns: String,
    pub name: String,
}

/// The tag name of an element: an identifier, a member chain, or a
/// namespaced name.
#[derive(Debug, PartialEq, Eq)]
pub enum ElemName {
    Ident(String),
    Member(Vec<String>),
    Namespaced(NsName),
}

/// The name of an attribute.
#[derive(Debug, PartialEq, Eq)]
pub enum AttrName {
    Ident(String),
    Namespaced(NsName),
}

/// The value of an attribute, when present.
#[derive(Debug)]
pub enum AttrValue {
    Lit(Lit),
    Expr(Expr),
    Elem(Box<Element>),
    Frag(u64),
    Opaque(u64),
}

/// A plain attribute `name` or `name={value}`.
#[derive(Debug)]
pub struct Attr {
    pub name: AttrName,
    pub value: Option<AttrValue>,
}

/// One entry of an element's attribute list.
#[derive(Debug)]
pub enum AttrOrSpread {
    Attr(Attr),
    Spread(Expr),
}

/// One child of an element.  Text, expression containers and fragments are
/// opaque.
#[derive(Debug)]
pub enum Child {
    Elem(Box<Element>),
    Opaque(u64),
}

/// A tree element with its tag name, attributes and children.  `closing` is
/// true when the element has a separate closing tag.
#[derive(Debug)]
pub struct Element {
    pub name: ElemName,
    pub attrs: Vec<AttrOrSpread>,
    pub children: Vec<Child>,
    pub closing: bool,
}

/// One top-level item of a module.
#[derive(Debug)]
pub enum Item {
    Import(ImportDecl),
    ExportDecl(Decl),
    ExportDefaultExpr(Expr),
    ExportDefaultDecl(DefaultDecl),
    ExportNamed(NamedExport),
    Stmt(Stmt),
    Opaque(u64),
}

} // verus!
