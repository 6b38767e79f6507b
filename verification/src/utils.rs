//! Builders for the synthetic statements the page engine splices in, and the
//! wrapping helpers that turn a value into an adapter call.

use vstd::prelude::*;
use crate::ast::{
    Binding, CallExpr, Decl, Expr, ExprOrSpread, FnDecl, FnExpr, ImportDecl, ImportNamed,
    ImportSpec, Item, Lit, ModName, Stmt, VarDecl, VarDeclarator, VarKind,
};
use crate::names;

verus! {

/// Is `e` the identifier expression `name`?
pub open spec fn is_ident_expr(e: Expr, name: Seq<char>) -> bool {
    e matches Expr::Ident(s) && s@ == name
}

/// Is `e` a call whose callee is the identifier `callee`?
pub open spec fn is_adapter_callee(e: Expr, callee: Seq<char>) -> bool {
    e matches Expr::Call(c) && is_ident_expr(*c.callee, callee)
}

/// Is `r` the one-argument call `callee(orig)`?
pub open spec fn is_adapter_call1(r: Expr, callee: Seq<char>, orig: Expr) -> bool {
    &&& r matches Expr::Call(c)
    &&& is_ident_expr(*c.callee, callee)
    &&& c.args@.len() == 1
    &&& !c.args@[0].spread
    &&& c.args@[0].expr == orig
}

/// Is `r` the two-argument call `callee(orig, excluded)`?
pub open spec fn is_adapter_call2(r: Expr, callee: Seq<char>, orig: Expr, excluded: ExprOrSpread) -> bool {
    &&& r matches Expr::Call(c)
    &&& is_ident_expr(*c.callee, callee)
    &&& c.args@.len() == 2
    &&& !c.args@[0].spread
    &&& c.args@[0].expr == orig
    &&& c.args@[1] == excluded
}

/// Is `e` the string literal `s`, not spread?
pub open spec fn is_str_lit_elem(e: ExprOrSpread, s: Seq<char>) -> bool {
    &&& !e.spread
    &&& e.expr matches Expr::Lit(Lit::Str(t)) && t@ == s
}

/// Is `e` the argument `[s0, s1, ...]`, an unspread array literal of the
/// strings `excluded`?
pub open spec fn is_excluded_array(e: ExprOrSpread, excluded: Seq<String>) -> bool {
    &&& !e.spread
    &&& e.expr matches Expr::Array(elems)
    &&& elems@.len() == excluded.len()
    &&& forall|i: int| 0 <= i < excluded.len() ==> #[trigger] is_str_lit_elem(elems@[i], excluded[i]@)
}

/// Is `r` the two-argument call `callee(orig, excluded)` where `orig` is the
/// identifier expression `orig_name`?
pub open spec fn is_adapter_call2_ident(
    r: Expr,
    callee: Seq<char>,
    orig_name: Seq<char>,
    excluded: ExprOrSpread,
) -> bool {
    &&& r matches Expr::Call(c)
    &&& is_ident_expr(*c.callee, callee)
    &&& c.args@.len() == 2
    &&& !c.args@[0].spread
    &&& is_ident_expr(c.args@[0].expr, orig_name)
    &&& c.args@[1] == excluded
}

/// Is `r` the one-argument call `callee(orig)` where `orig` is the identifier
/// expression `orig_name`?
pub open spec fn is_adapter_call1_ident(r: Expr, callee: Seq<char>, orig_name: Seq<char>) -> bool {
    &&& r matches Expr::Call(c)
    &&& is_ident_expr(*c.callee, callee)
    &&& c.args@.len() == 1
    &&& !c.args@[0].spread
    &&& is_ident_expr(c.args@[0].expr, orig_name)
}

/// Is `it` the statement `import { name as _name } from "next-superjson-plugin/tools"`?
pub open spec fn is_superjson_import(it: Item, name: Seq<char>) -> bool {
    &&& it matches Item::Import(d)
    &&& d.src@ == names::tools_src_name()
    &&& d.specifiers@.len() == 1
    &&& d.specifiers@[0] matches ImportSpec::Named(n)
    &&& n.local@ == names::underscored(name)
    &&& n.imported matches Some(i) && i matches ModName::Ident(t) && t@ == name
}

/// Is `it` the statement `import { imported as local } from "src"`?
pub open spec fn is_bridge_import(it: Item, imported: ModName, local: Seq<char>, src: Seq<char>) -> bool {
    &&& it matches Item::Import(d)
    &&& d.src@ == src
    &&& d.specifiers@.len() == 1
    &&& d.specifiers@[0] matches ImportSpec::Named(n)
    &&& n.local@ == local
    &&& n.imported matches Some(i) && i == imported
}

/// Is `it` the props bridging statement
/// `const <props orig> = _withSuperJSONProps(<props local>, excluded);`?
pub open spec fn is_props_bridge_const(it: Item, excluded: ExprOrSpread) -> bool {
    &&& it matches Item::Stmt(s)
    &&& s matches Stmt::Decl(d)
    &&& d matches Decl::Var(vd)
    &&& vd.kind == VarKind::Const
    &&& vd.decls@.len() == 1
    &&& vd.decls@[0].name matches Binding::Ident(n) && n@ == names::props_bridge_orig_name()
    &&& vd.decls@[0].init matches Some(e) && is_adapter_call2_ident(
        e,
        names::props_local_name(),
        names::props_bridge_local_name(),
        excluded,
    )
}

/// Is `it` the page bridging statement
/// `const <page orig> = _withSuperJSONPage(<page local>);`?
pub open spec fn is_page_bridge_const(it: Item) -> bool {
    &&& it matches Item::Stmt(s)
    &&& s matches Stmt::Decl(d)
    &&& d matches Decl::Var(vd)
    &&& vd.kind == VarKind::Const
    &&& vd.decls@.len() == 1
    &&& vd.decls@[0].name matches Binding::Ident(n) && n@ == names::page_bridge_orig_name()
    &&& vd.decls@[0].init matches Some(e) && is_adapter_call1_ident(
        e,
        names::page_local_name(),
        names::page_bridge_local_name(),
    )
}

/// Build the statement `import { name as _name } from "next-superjson-plugin/tools"`.
pub fn superjson_import_decl(superjson_import_name: &String) -> (r: Item)
    ensures
        is_superjson_import(r, superjson_import_name@),
{
    let local = names::underscore(superjson_import_name);
    let mut specifiers: Vec<ImportSpec> = Vec::new();
    specifiers.push(ImportSpec::Named(ImportNamed {
        local,
        imported: Some(ModName::Ident(superjson_import_name.clone())),
    }));
    Item::Import(ImportDecl { specifiers, src: names::tools_src_str() })
}

/// Build the statement `import { imported as local } from "src"`.
pub fn temp_import_item(imported: ModName, local: String, src: &String) -> (r: Item)
    ensures
        is_bridge_import(r, imported, local@, src@),
{
    let mut specifiers: Vec<ImportSpec> = Vec::new();
    specifiers.push(ImportSpec::Named(ImportNamed { local, imported: Some(imported) }));
    Item::Import(ImportDecl { specifiers, src: src.clone() })
}

/// Build the props bridging constant
/// `const <props orig> = _withSuperJSONProps(<props local>, excluded);`.
pub fn temp_props_item(excluded: ExprOrSpread) -> (r: Item)
    ensures
        is_props_bridge_const(r, excluded),
{
    let init = Expr::Ident(names::props_bridge_local_str()).wrap_props(excluded);
    let mut decls: Vec<VarDeclarator> = Vec::new();
    decls.push(VarDeclarator {
        name: Binding::Ident(names::props_bridge_orig_str()),
        init: Some(init),
    });
    Item::Stmt(Stmt::Decl(Decl::Var(VarDecl { kind: VarKind::Const, decls })))
}

/// Build the page bridging constant
/// `const <page orig> = _withSuperJSONPage(<page local>);`.
pub fn temp_page_item() -> (r: Item)
    ensures
        is_page_bridge_const(r),
{
    let init = Expr::Ident(names::page_bridge_local_str()).wrap_page();
    let mut decls: Vec<VarDeclarator> = Vec::new();
    decls.push(VarDeclarator {
        name: Binding::Ident(names::page_bridge_orig_str()),
        init: Some(init),
    });
    Item::Stmt(Stmt::Decl(Decl::Var(VarDecl { kind: VarKind::Const, decls })))
}

/// Build the excluded-keys argument: an array literal of the configured
/// strings.
pub fn excluded_arg(excluded: &Vec<String>) -> (r: ExprOrSpread)
    ensures
        is_excluded_array(r, excluded@),
{
    let mut elems: Vec<ExprOrSpread> = Vec::new();
    let mut i: usize = 0;
    while i < excluded.len()
        invariant
            i <= excluded.len(),
            elems@.len() == i,
            forall|k: int| 0 <= k < i ==> #[trigger] is_str_lit_elem(elems@[k], excluded@[k]@),
        decreases excluded.len() - i,
    {
        elems.push(ExprOrSpread { spread: false, expr: Expr::Lit(Lit::Str(excluded[i].clone())) });
        i = i + 1;
    }
    ExprOrSpread { spread: false, expr: Expr::Array(elems) }
}

/// Wrapping a value in an adapter call.
pub trait Wrapper: Sized {
    /// Does `r` wrap `self` in the props adapter, carrying `excluded`?
    spec fn wrapped_props(self, excluded: ExprOrSpread, r: Expr) -> bool;

    /// Does `r` wrap `self` in the init-props adapter, carrying `excluded`?
    spec fn wrapped_init_props(self, excluded: ExprOrSpread, r: Expr) -> bool;

    /// Does `r` wrap `self` in the page adapter?
    spec fn wrapped_page(self, r: Expr) -> bool;

    fn wrap_props(self, excluded: ExprOrSpread) -> (r: Expr)
        ensures
            self.wrapped_props(excluded, r),
    ;

    fn wrap_init_props(self, excluded: ExprOrSpread) -> (r: Expr)
        ensures
            self.wrapped_init_props(excluded, r),
    ;

    fn wrap_page(self) -> (r: Expr)
        ensures
            self.wrapped_page(r),
    ;
}

impl Wrapper for Expr {
    open spec fn wrapped_props(self, excluded: ExprOrSpread, r: Expr) -> bool {
        is_adapter_call2(r, names::props_local_name(), self, excluded)
    }

    open spec fn wrapped_init_props(self, excluded: ExprOrSpread, r: Expr) -> bool {
        is_adapter_call2(r, names::init_props_local_name(), self, excluded)
    }

    open spec fn wrapped_page(self, r: Expr) -> bool {
        is_adapter_call1(r, names::page_local_name(), self)
    }

    fn wrap_props(self, excluded: ExprOrSpread) -> (r: Expr) {
        let mut args: Vec<ExprOrSpread> = Vec::new();
        args.push(ExprOrSpread { spread: false, expr: self });
        args.push(excluded);
        Expr::Call(CallExpr { callee: Box::new(Expr::Ident(names::props_local_str())), args })
    }

    fn wrap_init_props(self, excluded: ExprOrSpread) -> (r: Expr) {
        let mut args: Vec<ExprOrSpread> = Vec::new();
        args.push(ExprOrSpread { spread: false, expr: self });
        args.push(excluded);
        Expr::Call(CallExpr { callee: Box::new(Expr::Ident(names::init_props_local_str())), args })
    }

    fn wrap_page(self) -> (r: Expr) {
        let mut args: Vec<ExprOrSpread> = Vec::new();
        args.push(ExprOrSpread { spread: false, expr: self });
        Expr::Call(CallExpr { callee: Box::new(Expr::Ident(names::page_local_str())), args })
    }
}

/// Is `d` the declaration `const <name of fd> = _withSuperJSONProps(<function
/// expression of fd>, excluded);`, the wrapped form of the function
/// declaration `fd`?
pub open spec fn is_wrapped_fn_var(fd: FnDecl, excluded: ExprOrSpread, d: Decl) -> bool {
    &&& d matches Decl::Var(vd)
    &&& vd.kind == VarKind::Const
    &&& vd.decls@.len() == 1
    &&& vd.decls@[0].name matches Binding::Ident(n) && n@ == fd.ident@
    &&& vd.decls@[0].init matches Some(e) && is_adapter_call2(
        e,
        names::props_local_name(),
        Expr::Func(FnExpr { ident: None, function: fd.function }),
        excluded,
    )
}

/// Turning a function declaration into its wrapped constant form.
pub trait DeclUtil: Sized {
    /// Does `d` wrap `self` as a props-adapted constant?
    spec fn wrapped_var_decl(self, excluded: ExprOrSpread, d: Decl) -> bool;

    fn as_wrapped_var_decl(self, excluded: ExprOrSpread) -> (d: Decl)
        ensures
            self.wrapped_var_decl(excluded, d),
    ;
}

impl DeclUtil for FnDecl {
    open spec fn wrapped_var_decl(self, excluded: ExprOrSpread, d: Decl) -> bool {
        is_wrapped_fn_var(self, excluded, d)
    }

    fn as_wrapped_var_decl(self, excluded: ExprOrSpread) -> (d: Decl) {
        let init = Expr::Func(FnExpr { ident: None, function: self.function }).wrap_props(excluded);
        let mut decls: Vec<VarDeclarator> = Vec::new();
        decls.push(VarDeclarator { name: Binding::Ident(self.ident), init: Some(init) });
        Decl::Var(VarDecl { kind: VarKind::Const, decls })
    }
}

/// Does the expression already carry the given adapter call?  Used by the
/// locator to protect already-wrapped values from a second wrapping.
pub fn expr_is_adapter_call(e: &Expr, callee: &String) -> (r: bool)
    ensures
        r == is_adapter_callee(*e, callee@),
{
    match e {
        Expr::Call(c) => match &*c.callee {
            Expr::Ident(s) => *s == *callee,
            _ => false,
        },
        _ => false,
    }
}

} // verus!
