//! The page engine: a locator that finds the data-fetch export and the
//! default page export among a module's items, and a rewriter that wraps
//! them in adapter calls while preserving the module's export contract.

use vstd::prelude::*;
use crate::ast::{
    AssignStmt, Binding, ClassDecl, Decl, DefaultDecl, ExportNamedSpec, ExportSpec, Expr, FnDecl,
    FnExpr, ImportDecl, ImportNamed, ImportSpec, Item, ModName, NamedExport, Stmt, VarDecl,
    VarDeclarator, VarKind,
};
use crate::names;
use crate::Config;
use crate::initprops::{has_bare_init_any, init_pass_rel, item_has_bare_init};
use crate::utils::{
    excluded_arg, is_adapter_callee, is_bridge_import, is_excluded_array, is_ident_expr,
    temp_import_item, temp_page_item, temp_props_item, DeclUtil, Wrapper,
};

verus! {

/// Which adapter a rewrite site takes.
#[derive(Debug, Clone, Copy, PartialEq, Eq)]
pub enum WrapKind {
    Props,
    Page,
}

pub open spec fn adapter_local_of(kind: WrapKind) -> Seq<char> {
    match kind {
        WrapKind::Props => names::props_local_name(),
        WrapKind::Page => names::page_local_name(),
    }
}

/// Where a locally referenced export target is actually declared.
#[derive(Debug, Clone, Copy, PartialEq, Eq)]
pub enum Site {
    Assign { item: usize },
    FnSite { item: usize },
    VarSite { item: usize, decl: usize },
    ImportSite { item: usize, spec: usize },
}

/// The position record of one export target, a coordinate into the original
/// item list.  `Skip` marks a pattern that already satisfies the target
/// contract and must never be wrapped.
#[derive(Debug, Clone, Copy, PartialEq, Eq)]
pub enum Target {
    NotFound,
    Skip,
    ExportFn { item: usize },
    ExportVar { item: usize, decl: usize },
    DefaultExpr { item: usize },
    DefaultDecl { item: usize },
    LocalSpec { item: usize, spec: usize, site: Site },
    SourceSpec { item: usize, spec: usize },
}

// --- shapes of the forward scans ---

/// `export function <data-fetch name>() {}`.
pub open spec fn export_fn_props(it: Item) -> bool {
    &&& it matches Item::ExportDecl(d)
    &&& d matches Decl::Fn(fd)
    &&& names::is_data_fetch_name(fd.ident@)
}

/// A declarator `<data-fetch name> = init`.
pub open spec fn declarator_props(d: VarDeclarator) -> bool {
    &&& d.name matches Binding::Ident(n)
    &&& names::is_data_fetch_name(n@)
    &&& d.init is Some
}

/// `export const/let/var ..., <data-fetch name> = init, ...`.
pub open spec fn export_var_props(it: Item) -> bool {
    &&& it matches Item::ExportDecl(d)
    &&& d matches Decl::Var(vd)
    &&& exists|j: int| 0 <= j < vd.decls@.len() && declarator_props(#[trigger] vd.decls@[j])
}

/// A named export specifier whose exported name is a data-fetch name.
pub open spec fn spec_props(s: ExportSpec) -> bool {
    &&& s matches ExportSpec::Named(en)
    &&& names::is_data_fetch_name(en.exported_text())
}

/// Any shape the data-fetch forward scan recognizes.
pub open spec fn props_fwd_match(it: Item) -> bool {
    ||| export_fn_props(it)
    ||| export_var_props(it)
    ||| (it matches Item::ExportNamed(ne) && exists|k: int|
        0 <= k < ne.specifiers@.len() && spec_props(#[trigger] ne.specifiers@[k]))
}

/// `it` is the first item of the module the data-fetch scan stops at.
pub open spec fn first_props_at(items: Seq<Item>, i: int) -> bool {
    &&& 0 <= i < items.len()
    &&& props_fwd_match(items[i])
    &&& forall|i2: int| 0 <= i2 < i ==> !props_fwd_match(#[trigger] items[i2])
}

/// `export default <expression>`.
pub open spec fn default_expr_match(it: Item) -> bool {
    it matches Item::ExportDefaultExpr(_)
}

/// `export default function ...` / `export default class ...`.
pub open spec fn default_decl_match(it: Item) -> bool {
    &&& it matches Item::ExportDefaultDecl(dd)
    &&& !(dd matches crate::ast::DefaultDecl::Opaque(_))
}

/// A named export specifier whose exported name is the literal `default`.
pub open spec fn spec_default(s: ExportSpec) -> bool {
    &&& s matches ExportSpec::Named(en)
    &&& en.exported_text() == names::default_name()
}

/// Any shape the default-export forward scan recognizes.
pub open spec fn default_fwd_match(it: Item) -> bool {
    ||| default_expr_match(it)
    ||| default_decl_match(it)
    ||| (it matches Item::ExportNamed(ne) && exists|k: int|
        0 <= k < ne.specifiers@.len() && spec_default(#[trigger] ne.specifiers@[k]))
}

/// `it` is the first item of the module the default-export scan stops at.
pub open spec fn first_default_at(items: Seq<Item>, i: int) -> bool {
    &&& 0 <= i < items.len()
    &&& default_fwd_match(items[i])
    &&& forall|i2: int| 0 <= i2 < i ==> !default_fwd_match(#[trigger] items[i2])
}

// --- shapes of the backward resolution scan ---

/// The declaration an item carries, whether exported or not.
pub open spec fn item_decl(it: Item) -> Option<Decl> {
    match it {
        Item::Stmt(s) => match s {
            Stmt::Decl(d) => Some(d),
            _ => None,
        },
        Item::ExportDecl(d) => Some(d),
        _ => None,
    }
}

/// A plain top-level assignment `x = value`.
pub open spec fn assign_site_match(it: Item, x: Seq<char>) -> bool {
    &&& it matches Item::Stmt(s)
    &&& s matches Stmt::Assign(a)
    &&& a.plain
    &&& a.target@ == x
}

/// A declarator `x = init`.
pub open spec fn declarator_named(d: VarDeclarator, x: Seq<char>) -> bool {
    &&& d.name matches Binding::Ident(n)
    &&& n@ == x
    &&& d.init is Some
}

/// A function declaration `function x() {}`, exported or not.
pub open spec fn fn_site_match(it: Item, x: Seq<char>) -> bool {
    &&& item_decl(it) matches Some(d)
    &&& d matches Decl::Fn(fd)
    &&& fd.ident@ == x
}

/// A `const` declaration with a declarator for `x`, exported or not.
pub open spec fn var_site_match(it: Item, x: Seq<char>) -> bool {
    &&& item_decl(it) matches Some(d)
    &&& d matches Decl::Var(vd)
    &&& vd.kind == VarKind::Const
    &&& exists|j: int| 0 <= j < vd.decls@.len() && declarator_named(#[trigger] vd.decls@[j], x)
}

/// A named import specifier binding the local `x`.
pub open spec fn import_spec_local(s: ImportSpec, x: Seq<char>) -> bool {
    &&& s matches ImportSpec::Named(n)
    &&& n.local@ == x
}

/// An import declaration with a named specifier binding the local `x`.
pub open spec fn import_site_match(it: Item, x: Seq<char>) -> bool {
    &&& it matches Item::Import(d)
    &&& exists|m: int| 0 <= m < d.specifiers@.len() && import_spec_local(
        #[trigger] d.specifiers@[m],
        x,
    )
}

/// Any shape the backward scan recognizes as declaring or importing `x`.
pub open spec fn site_match(it: Item, x: Seq<char>) -> bool {
    ||| assign_site_match(it, x)
    ||| fn_site_match(it, x)
    ||| var_site_match(it, x)
    ||| import_site_match(it, x)
}

/// `l` is the position the backward scan stops at: the last item declaring or
/// importing `x`.
pub open spec fn last_site_at(items: Seq<Item>, x: Seq<char>, l: int) -> bool {
    &&& 0 <= l < items.len()
    &&& site_match(items[l], x)
    &&& forall|l2: int| l < l2 < items.len() ==> !site_match(#[trigger] items[l2], x)
}

/// The name under which a named import specifier imports: its `imported`
/// name, or its local name for the shorthand form.
pub open spec fn import_imported_text(n: ImportNamed) -> Seq<char> {
    match n.imported {
        Some(m) => m.text(),
        None => n.local@,
    }
}

/// What the backward resolution scan reports.
#[derive(Debug, Clone, Copy, PartialEq, Eq)]
pub enum Resolved {
    RNone,
    RSkip,
    RSite(Site),
}

/// The outcome the resolution of local identifier `x` must have, scanning for
/// the recognized name `rn` on the side whose adapter is `kind`.
pub open spec fn resolve_ok(
    items: Seq<Item>,
    x: Seq<char>,
    rn: Seq<char>,
    kind: WrapKind,
    r: Resolved,
) -> bool {
    match r {
        Resolved::RNone => forall|l: int|
            0 <= l < items.len() ==> !site_match(#[trigger] items[l], x),
        Resolved::RSkip => exists|l: int|
            #[trigger] last_site_at(items, x, l) && site_skips(items[l], x, rn, kind),
        Resolved::RSite(site) => {
            &&& exists|l: int| #[trigger] last_site_at(items, x, l) && site_index(site) == l
            &&& site_describes(items, x, rn, kind, site)
        },
    }
}

pub open spec fn site_index(site: Site) -> int {
    match site {
        Site::Assign { item } => item as int,
        Site::FnSite { item } => item as int,
        Site::VarSite { item, .. } => item as int,
        Site::ImportSite { item, .. } => item as int,
    }
}

/// Does the site item, already known to be the scan's stopping point, make
/// the target skip?  An assignment or declarator whose value already carries
/// the adapter call does; so does an import under the recognized name itself.
pub open spec fn site_skips(it: Item, x: Seq<char>, rn: Seq<char>, kind: WrapKind) -> bool {
    if assign_site_match(it, x) {
        it matches Item::Stmt(s) && s matches Stmt::Assign(a) && is_adapter_callee(
            a.value,
            adapter_local_of(kind),
        )
    } else if fn_site_match(it, x) {
        false
    } else if var_site_match(it, x) {
        exists|j: int|
            #[trigger] first_named_declarator_at(it, x, j) && item_declarator_wrapped(it, j, kind)
    } else {
        exists|m: int|
            #[trigger] first_import_local_at(it, x, m) && import_spec_imported_is(it, m, rn)
    }
}

/// `j` is the first declarator of the declaration in `it` that binds `x`.
pub open spec fn first_named_declarator_at(it: Item, x: Seq<char>, j: int) -> bool {
    &&& item_decl(it) matches Some(d)
    &&& d matches Decl::Var(vd)
    &&& 0 <= j < vd.decls@.len()
    &&& declarator_named(vd.decls@[j], x)
    &&& forall|j2: int| 0 <= j2 < j ==> !declarator_named(#[trigger] vd.decls@[j2], x)
}

/// The `j`th declarator's value already carries the adapter call of `kind`.
pub open spec fn item_declarator_wrapped(it: Item, j: int, kind: WrapKind) -> bool {
    &&& item_decl(it) matches Some(d)
    &&& d matches Decl::Var(vd)
    &&& 0 <= j < vd.decls@.len()
    &&& vd.decls@[j].init matches Some(e)
    &&& is_adapter_callee(e, adapter_local_of(kind))
}

/// `m` is the first named import specifier of `it` binding the local `x`.
pub open spec fn first_import_local_at(it: Item, x: Seq<char>, m: int) -> bool {
    &&& it matches Item::Import(d)
    &&& 0 <= m < d.specifiers@.len()
    &&& import_spec_local(d.specifiers@[m], x)
    &&& forall|m2: int| 0 <= m2 < m ==> !import_spec_local(#[trigger] d.specifiers@[m2], x)
}

/// The `m`th specifier of the import item imports under the name `rn`.
pub open spec fn import_spec_imported_is(it: Item, m: int, rn: Seq<char>) -> bool {
    &&& it matches Item::Import(d)
    &&& 0 <= m < d.specifiers@.len()
    &&& d.specifiers@[m] matches ImportSpec::Named(n)
    &&& import_imported_text(n) == rn
}

/// `j` is the first data-fetch declarator of `vd`.
pub open spec fn first_props_declarator_at(vd: VarDecl, j: int) -> bool {
    &&& 0 <= j < vd.decls@.len()
    &&& declarator_props(vd.decls@[j])
    &&& forall|j2: int| 0 <= j2 < j ==> !declarator_props(#[trigger] vd.decls@[j2])
}

/// `k` is the first data-fetch specifier of the named export `it`.
pub open spec fn named_props_spec_at(it: Item, k: int) -> bool {
    &&& it matches Item::ExportNamed(ne)
    &&& 0 <= k < ne.specifiers@.len()
    &&& spec_props(ne.specifiers@[k])
    &&& forall|k2: int| 0 <= k2 < k ==> !spec_props(#[trigger] ne.specifiers@[k2])
}

/// `k` is the first `default` specifier of the named export `it`.
pub open spec fn named_default_spec_at(it: Item, k: int) -> bool {
    &&& it matches Item::ExportNamed(ne)
    &&& 0 <= k < ne.specifiers@.len()
    &&& spec_default(ne.specifiers@[k])
    &&& forall|k2: int| 0 <= k2 < k ==> !spec_default(#[trigger] ne.specifiers@[k2])
}

/// A non-skipping site record: the kind of declaration found at the scan's
/// stopping point, with its inner coordinate.
pub open spec fn site_describes(
    items: Seq<Item>,
    x: Seq<char>,
    rn: Seq<char>,
    kind: WrapKind,
    site: Site,
) -> bool {
    match site {
        Site::Assign { item } => {
            &&& assign_site_match(items[item as int], x)
            &&& !site_skips(items[item as int], x, rn, kind)
        },
        Site::FnSite { item } => {
            &&& !assign_site_match(items[item as int], x)
            &&& fn_site_match(items[item as int], x)
        },
        Site::VarSite { item, decl } => {
            &&& !assign_site_match(items[item as int], x)
            &&& !fn_site_match(items[item as int], x)
            &&& first_named_declarator_at(items[item as int], x, decl as int)
            &&& !item_declarator_wrapped(items[item as int], decl as int, kind)
        },
        Site::ImportSite { item, spec } => {
            &&& first_import_local_at(items[item as int], x, spec as int)
            &&& !import_spec_imported_is(items[item as int], spec as int, rn)
        },
    }
}

// --- what the two locators must report ---

/// The first data-fetch match is a named specifier that refers nowhere the
/// scan can rewrite: a string-named local, or a local that no item declares.
pub open spec fn props_unresolvable_at(items: Seq<Item>, i: int) -> bool {
    exists|k: int|
        {
            &&& #[trigger] named_props_spec_at(items[i], k)
            &&& items[i] matches Item::ExportNamed(ne)
            &&& ne.src is None
            &&& ne.specifiers@[k] matches ExportSpec::Named(en)
            &&& match en.orig {
                ModName::Str(_) => true,
                ModName::Ident(xs) => resolve_ok(
                    items,
                    xs@,
                    en.exported_text(),
                    WrapKind::Props,
                    Resolved::RNone,
                ),
            }
        }
}

/// `j` is the first data-fetch declarator of the exported declaration `it`.
pub open spec fn export_var_props_at(it: Item, j: int) -> bool {
    &&& it matches Item::ExportDecl(d)
    &&& d matches Decl::Var(vd)
    &&& first_props_declarator_at(vd, j)
}

/// The first data-fetch match already satisfies the target contract.
pub open spec fn props_skip_at(items: Seq<Item>, i: int) -> bool {
    ||| (exists|j: int|
        {
            &&& #[trigger] export_var_props_at(items[i], j)
            &&& item_declarator_wrapped(items[i], j, WrapKind::Props)
        })
    ||| (exists|k: int|
        {
            &&& #[trigger] named_props_spec_at(items[i], k)
            &&& items[i] matches Item::ExportNamed(ne)
            &&& ne.specifiers@[k] matches ExportSpec::Named(en)
            &&& match ne.src {
                Some(_) => en.orig.text() == en.exported_text(),
                None => en.orig matches ModName::Ident(xs) && resolve_ok(
                    items,
                    xs@,
                    en.exported_text(),
                    WrapKind::Props,
                    Resolved::RSkip,
                ),
            }
        })
}

/// The position record the data-fetch locator must produce.
pub open spec fn props_target_ok(items: Seq<Item>, t: Target) -> bool {
    match t {
        Target::NotFound => {
            ||| (forall|i: int| 0 <= i < items.len() ==> !props_fwd_match(#[trigger] items[i]))
            ||| (exists|i: int| #[trigger] first_props_at(items, i) && props_unresolvable_at(items, i))
        },
        Target::Skip => exists|i: int|
            #[trigger] first_props_at(items, i) && props_skip_at(items, i),
        Target::ExportFn { item } => {
            &&& first_props_at(items, item as int)
            &&& export_fn_props(items[item as int])
        },
        Target::ExportVar { item, decl } => {
            &&& first_props_at(items, item as int)
            &&& items[item as int] matches Item::ExportDecl(d)
            &&& d matches Decl::Var(vd)
            &&& first_props_declarator_at(vd, decl as int)
            &&& !item_declarator_wrapped(items[item as int], decl as int, WrapKind::Props)
        },
        Target::LocalSpec { item, spec, site } => {
            &&& first_props_at(items, item as int)
            &&& named_props_spec_at(items[item as int], spec as int)
            &&& items[item as int] matches Item::ExportNamed(ne)
            &&& ne.src is None
            &&& ne.specifiers@[spec as int] matches ExportSpec::Named(en)
            &&& en.orig matches ModName::Ident(xs)
            &&& resolve_ok(items, xs@, en.exported_text(), WrapKind::Props, Resolved::RSite(site))
        },
        Target::SourceSpec { item, spec } => {
            &&& first_props_at(items, item as int)
            &&& named_props_spec_at(items[item as int], spec as int)
            &&& items[item as int] matches Item::ExportNamed(ne)
            &&& ne.src is Some
            &&& ne.specifiers@[spec as int] matches ExportSpec::Named(en)
            &&& en.orig.text() != en.exported_text()
        },
        Target::DefaultExpr { .. } => false,
        Target::DefaultDecl { .. } => false,
    }
}

/// The first default-export match refers nowhere the scan can rewrite.
pub open spec fn default_unresolvable_at(items: Seq<Item>, i: int) -> bool {
    exists|k: int|
        {
            &&& #[trigger] named_default_spec_at(items[i], k)
            &&& items[i] matches Item::ExportNamed(ne)
            &&& ne.src is None
            &&& ne.specifiers@[k] matches ExportSpec::Named(en)
            &&& match en.orig {
                ModName::Str(_) => true,
                ModName::Ident(xs) => resolve_ok(
                    items,
                    xs@,
                    names::default_name(),
                    WrapKind::Page,
                    Resolved::RNone,
                ),
            }
        }
}

/// The first default-export match already satisfies the target contract.
pub open spec fn default_skip_at(items: Seq<Item>, i: int) -> bool {
    ||| (items[i] matches Item::ExportDefaultExpr(e) && is_adapter_callee(
        e,
        names::page_local_name(),
    ))
    ||| (exists|k: int|
        {
            &&& #[trigger] named_default_spec_at(items[i], k)
            &&& items[i] matches Item::ExportNamed(ne)
            &&& ne.specifiers@[k] matches ExportSpec::Named(en)
            &&& match ne.src {
                Some(_) => en.orig.text() == names::default_name(),
                None => en.orig matches ModName::Ident(xs) && resolve_ok(
                    items,
                    xs@,
                    names::default_name(),
                    WrapKind::Page,
                    Resolved::RSkip,
                ),
            }
        })
}

/// The position record the default-export locator must produce.
pub open spec fn default_target_ok(items: Seq<Item>, t: Target) -> bool {
    match t {
        Target::NotFound => {
            ||| (forall|i: int| 0 <= i < items.len() ==> !default_fwd_match(#[trigger] items[i]))
            ||| (exists|i: int|
                #[trigger] first_default_at(items, i) && default_unresolvable_at(items, i))
        },
        Target::Skip => exists|i: int|
            #[trigger] first_default_at(items, i) && default_skip_at(items, i),
        Target::DefaultExpr { item } => {
            &&& first_default_at(items, item as int)
            &&& items[item as int] matches Item::ExportDefaultExpr(e)
            &&& !is_adapter_callee(e, names::page_local_name())
        },
        Target::DefaultDecl { item } => {
            &&& first_default_at(items, item as int)
            &&& default_decl_match(items[item as int])
        },
        Target::LocalSpec { item, spec, site } => {
            &&& first_default_at(items, item as int)
            &&& named_default_spec_at(items[item as int], spec as int)
            &&& items[item as int] matches Item::ExportNamed(ne)
            &&& ne.src is None
            &&& ne.specifiers@[spec as int] matches ExportSpec::Named(en)
            &&& en.orig matches ModName::Ident(xs)
            &&& resolve_ok(items, xs@, names::default_name(), WrapKind::Page, Resolved::RSite(site))
        },
        Target::SourceSpec { item, spec } => {
            &&& first_default_at(items, item as int)
            &&& named_default_spec_at(items[item as int], spec as int)
            &&& items[item as int] matches Item::ExportNamed(ne)
            &&& ne.src is Some
            &&& ne.specifiers@[spec as int] matches ExportSpec::Named(en)
            &&& en.orig.text() != names::default_name()
        },
        Target::ExportFn { .. } => false,
        Target::ExportVar { .. } => false,
    }
}

// --- executable helpers ---

/// Is `s` one of the recognized data-fetch export names?
fn is_data_fetch_str(s: &String) -> (r: bool)
    ensures
        r == names::is_data_fetch_name(s@),
{
    *s == names::static_props_str() || *s == names::server_side_props_str()
}

/// The text of a module export name.
fn mod_name_text(m: &ModName) -> (r: String)
    ensures
        r@ == m.text(),
{
    match m {
        ModName::Ident(s) => s.clone(),
        ModName::Str(s) => s.clone(),
    }
}

/// The externally visible name of a named export specifier.
fn exported_text_exec(en: &ExportNamedSpec) -> (r: String)
    ensures
        r@ == en.exported_text(),
{
    match &en.exported {
        Some(e) => mod_name_text(e),
        None => mod_name_text(&en.orig),
    }
}

/// Does this declarator bind a data-fetch name to a value?
fn declarator_props_exec(d: &VarDeclarator) -> (r: bool)
    ensures
        r == declarator_props(*d),
{
    match &d.name {
        Binding::Ident(n) => is_data_fetch_str(n) && match &d.init {
            Some(_) => true,
            None => false,
        },
        _ => false,
    }
}

/// The first data-fetch declarator of `vd`, if any.
fn find_props_declarator(vd: &VarDecl) -> (r: Option<usize>)
    ensures
        r matches Some(j) ==> first_props_declarator_at(*vd, j as int),
        r is None ==> forall|j: int|
            0 <= j < vd.decls@.len() ==> !declarator_props(#[trigger] vd.decls@[j]),
{
    let mut j: usize = 0;
    while j < vd.decls.len()
        invariant
            j <= vd.decls@.len(),
            forall|j2: int| 0 <= j2 < j ==> !declarator_props(#[trigger] vd.decls@[j2]),
        decreases vd.decls@.len() - j,
    {
        if declarator_props_exec(&vd.decls[j]) {
            return Some(j);
        }
        j = j + 1;
    }
    None
}

/// Is this specifier an export of a data-fetch name?
fn spec_props_exec(s: &ExportSpec) -> (r: bool)
    ensures
        r == spec_props(*s),
{
    match s {
        ExportSpec::Named(en) => {
            let t = exported_text_exec(en);
            is_data_fetch_str(&t)
        },
        _ => false,
    }
}

/// Is this specifier an export of the literal `default`?
fn spec_default_exec(s: &ExportSpec) -> (r: bool)
    ensures
        r == spec_default(*s),
{
    match s {
        ExportSpec::Named(en) => {
            let t = exported_text_exec(en);
            t == names::default_str()
        },
        _ => false,
    }
}

/// The first data-fetch specifier of `ne`, if any.
fn find_props_spec(ne: &NamedExport) -> (r: Option<usize>)
    ensures
        r matches Some(k) ==> {
            &&& 0 <= k < ne.specifiers@.len()
            &&& spec_props(ne.specifiers@[k as int])
            &&& forall|k2: int| 0 <= k2 < k ==> !spec_props(#[trigger] ne.specifiers@[k2])
        },
        r is None ==> forall|k: int|
            0 <= k < ne.specifiers@.len() ==> !spec_props(#[trigger] ne.specifiers@[k]),
{
    let mut k: usize = 0;
    while k < ne.specifiers.len()
        invariant
            k <= ne.specifiers@.len(),
            forall|k2: int| 0 <= k2 < k ==> !spec_props(#[trigger] ne.specifiers@[k2]),
        decreases ne.specifiers@.len() - k,
    {
        if spec_props_exec(&ne.specifiers[k]) {
            return Some(k);
        }
        k = k + 1;
    }
    None
}

/// The first `default` specifier of `ne`, if any.
fn find_default_spec(ne: &NamedExport) -> (r: Option<usize>)
    ensures
        r matches Some(k) ==> {
            &&& 0 <= k < ne.specifiers@.len()
            &&& spec_default(ne.specifiers@[k as int])
            &&& forall|k2: int| 0 <= k2 < k ==> !spec_default(#[trigger] ne.specifiers@[k2])
        },
        r is None ==> forall|k: int|
            0 <= k < ne.specifiers@.len() ==> !spec_default(#[trigger] ne.specifiers@[k]),
{
    let mut k: usize = 0;
    while k < ne.specifiers.len()
        invariant
            k <= ne.specifiers@.len(),
            forall|k2: int| 0 <= k2 < k ==> !spec_default(#[trigger] ne.specifiers@[k2]),
        decreases ne.specifiers@.len() - k,
    {
        if spec_default_exec(&ne.specifiers[k]) {
            return Some(k);
        }
        k = k + 1;
    }
    None
}

/// Does this declarator hold a value already wrapped by the adapter?
fn declarator_wrapped_exec(d: &VarDeclarator, adapter: &String) -> (r: bool)
    ensures
        r == (d.init matches Some(e) && is_adapter_callee(e, adapter@)),
{
    match &d.init {
        Some(e) => crate::utils::expr_is_adapter_call(e, adapter),
        None => false,
    }
}

/// Does this declarator bind `x` to a value?
fn declarator_named_exec(d: &VarDeclarator, x: &String) -> (r: bool)
    ensures
        r == declarator_named(*d, x@),
{
    match &d.name {
        Binding::Ident(n) => *n == *x && match &d.init {
            Some(_) => true,
            None => false,
        },
        _ => false,
    }
}

/// The first declarator of `vd` binding `x`, if any.
fn find_named_declarator(vd: &VarDecl, x: &String) -> (r: Option<usize>)
    ensures
        r matches Some(j) ==> {
            &&& 0 <= j < vd.decls@.len()
            &&& declarator_named(vd.decls@[j as int], x@)
            &&& forall|j2: int| 0 <= j2 < j ==> !declarator_named(#[trigger] vd.decls@[j2], x@)
        },
        r is None ==> forall|j: int|
            0 <= j < vd.decls@.len() ==> !declarator_named(#[trigger] vd.decls@[j], x@),
{
    let mut j: usize = 0;
    while j < vd.decls.len()
        invariant
            j <= vd.decls@.len(),
            forall|j2: int| 0 <= j2 < j ==> !declarator_named(#[trigger] vd.decls@[j2], x@),
        decreases vd.decls@.len() - j,
    {
        if declarator_named_exec(&vd.decls[j], x) {
            return Some(j);
        }
        j = j + 1;
    }
    None
}

/// The first named import specifier of `d` binding the local `x`, if any.
fn find_import_local(d: &ImportDecl, x: &String) -> (r: Option<usize>)
    ensures
        r matches Some(m) ==> {
            &&& 0 <= m < d.specifiers@.len()
            &&& import_spec_local(d.specifiers@[m as int], x@)
            &&& forall|m2: int| 0 <= m2 < m ==> !import_spec_local(#[trigger] d.specifiers@[m2], x@)
        },
        r is None ==> forall|m: int|
            0 <= m < d.specifiers@.len() ==> !import_spec_local(#[trigger] d.specifiers@[m], x@),
{
    let mut m: usize = 0;
    while m < d.specifiers.len()
        invariant
            m <= d.specifiers@.len(),
            forall|m2: int| 0 <= m2 < m ==> !import_spec_local(#[trigger] d.specifiers@[m2], x@),
        decreases d.specifiers@.len() - m,
    {
        let hit = match &d.specifiers[m] {
            ImportSpec::Named(n) => n.local == *x,
            _ => false,
        };
        if hit {
            return Some(m);
        }
        m = m + 1;
    }
    None
}

/// What the backward scan decides at a declaration item.  `None` means the
/// declaration does not bind `x`.
fn decl_resolve(it: &Item, d: &Decl, l: usize, x: &String, kind: WrapKind) -> (r: Option<Resolved>)
    requires
        item_decl(*it) == Some(*d),
    ensures
        r is None ==> !site_match(*it, x@),
        r matches Some(res) ==> {
            &&& site_match(*it, x@)
            &&& match res {
                Resolved::RSkip => exists|j: int|
                    #[trigger] first_named_declarator_at(*it, x@, j) && item_declarator_wrapped(
                        *it,
                        j,
                        kind,
                    ),
                Resolved::RSite(site) => site_index(site) == l as int && match site {
                    Site::FnSite { item } => fn_site_match(*it, x@),
                    Site::VarSite { item, decl } => {
                        &&& first_named_declarator_at(*it, x@, decl as int)
                        &&& !item_declarator_wrapped(*it, decl as int, kind)
                    },
                    _ => false,
                },
                Resolved::RNone => false,
            }
        },
{
    match d {
        Decl::Fn(fd) => {
            if fd.ident == *x {
                proof {
                    assert(fn_site_match(*it, x@));
                }
                Some(Resolved::RSite(Site::FnSite { item: l }))
            } else {
                proof {
                    assert(!fn_site_match(*it, x@));
                    assert(!var_site_match(*it, x@));
                }
                None
            }
        },
        Decl::Var(vd) => {
            let is_const = match vd.kind {
                VarKind::Const => true,
                _ => false,
            };
            if !is_const {
                return None;
            }
            match find_named_declarator(vd, x) {
                Some(j) => {
                    proof {
                        assert(first_named_declarator_at(*it, x@, j as int));
                        assert(var_site_match(*it, x@));
                    }
                    let adapter = match kind {
                        WrapKind::Props => names::props_local_str(),
                        WrapKind::Page => names::page_local_str(),
                    };
                    if declarator_wrapped_exec(&vd.decls[j], &adapter) {
                        proof {
                            assert(item_declarator_wrapped(*it, j as int, kind));
                        }
                        Some(Resolved::RSkip)
                    } else {
                        proof {
                            assert(!item_declarator_wrapped(*it, j as int, kind));
                        }
                        Some(Resolved::RSite(Site::VarSite { item: l, decl: j }))
                    }
                },
                None => None,
            }
        },
        _ => None,
    }
}

/// The backward scan: from the end of the module, find where the local
/// identifier `x` is declared or imported, and whether that site already
/// satisfies the target contract.  `rn` is the recognized name the forward
/// scan matched; an import under that very name skips.
pub fn resolve_local(items: &Vec<Item>, x: &String, rn: &String, kind: WrapKind) -> (r: Resolved)
    ensures
        resolve_ok(items@, x@, rn@, kind, r),
{
    let mut l: usize = items.len();
    while l > 0
        invariant
            l <= items@.len(),
            forall|l2: int| l <= l2 < items@.len() ==> !site_match(#[trigger] items@[l2], x@),
        decreases l,
    {
        l = l - 1;
        match &items[l] {
            Item::Stmt(s) => match s {
                Stmt::Assign(a) => {
                    let hit = a.plain && a.target == *x;
                    if hit {
                        let adapter = match kind {
                            WrapKind::Props => names::props_local_str(),
                            WrapKind::Page => names::page_local_str(),
                        };
                        proof {
                            assert(site_match(items@[l as int], x@));
                            assert(last_site_at(items@, x@, l as int));
                        }
                        if crate::utils::expr_is_adapter_call(&a.value, &adapter) {
                            proof {
                                assert(site_skips(items@[l as int], x@, rn@, kind));
                            }
                            return Resolved::RSkip;
                        }
                        proof {
                            assert(site_describes(
                                items@,
                                x@,
                                rn@,
                                kind,
                                Site::Assign { item: l },
                            ));
                        }
                        return Resolved::RSite(Site::Assign { item: l });
                    }
                },
                Stmt::Decl(d) => {
                    match decl_resolve(&items[l], d, l, x, kind) {
                        Some(res) => {
                            proof {
                                assert(last_site_at(items@, x@, l as int));
                            }
                            match res {
                                Resolved::RSkip => {
                                    proof {
                                        assert(site_skips(items@[l as int], x@, rn@, kind));
                                    }
                                    return Resolved::RSkip;
                                },
                                Resolved::RSite(site) => {
                                    proof {
                                        assert(site_describes(items@, x@, rn@, kind, site));
                                    }
                                    return Resolved::RSite(site);
                                },
                                Resolved::RNone => {
                                    proof {
                                        assert(false);
                                    }
                                },
                            }
                        },
                        None => {},
                    }
                },
                _ => {},
            },
            Item::ExportDecl(d) => {
                match decl_resolve(&items[l], d, l, x, kind) {
                    Some(res) => {
                        proof {
                            assert(last_site_at(items@, x@, l as int));
                        }
                        match res {
                            Resolved::RSkip => {
                                proof {
                                    assert(site_skips(items@[l as int], x@, rn@, kind));
                                }
                                return Resolved::RSkip;
                            },
                            Resolved::RSite(site) => {
                                proof {
                                    assert(site_describes(items@, x@, rn@, kind, site));
                                }
                                return Resolved::RSite(site);
                            },
                            Resolved::RNone => {
                                proof {
                                    assert(false);
                                }
                            },
                        }
                    },
                    None => {},
                }
            },
            Item::Import(d) => {
                match find_import_local(d, x) {
                    Some(m) => {
                        proof {
                            assert(site_match(items@[l as int], x@));
                            assert(last_site_at(items@, x@, l as int));
                            assert(first_import_local_at(items@[l as int], x@, m as int));
                        }
                        let imported_text: String = match &d.specifiers[m] {
                            ImportSpec::Named(n) => match &n.imported {
                                Some(mn) => mod_name_text(mn),
                                None => n.local.clone(),
                            },
                            _ => {
                                proof {
                                    assert(false);
                                }
                                names::default_str()
                            },
                        };
                        if imported_text == *rn {
                            proof {
                                assert(import_spec_imported_is(items@[l as int], m as int, rn@));
                                assert(site_skips(items@[l as int], x@, rn@, kind));
                            }
                            return Resolved::RSkip;
                        }
                        proof {
                            assert(site_describes(
                                items@,
                                x@,
                                rn@,
                                kind,
                                Site::ImportSite { item: l, spec: m },
                            ));
                        }
                        return Resolved::RSite(Site::ImportSite { item: l, spec: m });
                    },
                    None => {},
                }
            },
            _ => {},
        }
        proof {
            assert(!site_match(items@[l as int], x@));
        }
    }
    Resolved::RNone
}

/// The data-fetch half of the locator: scan the items forward for the first
/// export of a recognized data-fetch name, resolving a bare local reference
/// backward to its declaration or import.  Absence is `NotFound`, never an
/// error; a pattern that already satisfies the contract is `Skip`.
pub fn locate_props(items: &Vec<Item>) -> (t: Target)
    ensures
        props_target_ok(items@, t),
{
    let mut i: usize = 0;
    while i < items.len()
        invariant
            i <= items@.len(),
            forall|i2: int| 0 <= i2 < i ==> !props_fwd_match(#[trigger] items@[i2]),
        decreases items@.len() - i,
    {
        match &items[i] {
            Item::ExportDecl(d) => match d {
                Decl::Fn(fd) => {
                    if is_data_fetch_str(&fd.ident) {
                        proof {
                            assert(export_fn_props(items@[i as int]));
                            assert(first_props_at(items@, i as int));
                        }
                        return Target::ExportFn { item: i };
                    }
                },
                Decl::Var(vd) => {
                    match find_props_declarator(vd) {
                        Some(j) => {
                            proof {
                                assert(export_var_props(items@[i as int]));
                                assert(first_props_at(items@, i as int));
                                assert(export_var_props_at(items@[i as int], j as int));
                            }
                            let adapter = names::props_local_str();
                            if declarator_wrapped_exec(&vd.decls[j], &adapter) {
                                proof {
                                    assert(item_declarator_wrapped(
                                        items@[i as int],
                                        j as int,
                                        WrapKind::Props,
                                    ));
                                    assert(props_skip_at(items@, i as int));
                                }
                                return Target::Skip;
                            }
                            proof {
                                assert(!item_declarator_wrapped(
                                    items@[i as int],
                                    j as int,
                                    WrapKind::Props,
                                ));
                            }
                            return Target::ExportVar { item: i, decl: j };
                        },
                        None => {},
                    }
                },
                _ => {},
            },
            Item::ExportNamed(ne) => {
                match find_props_spec(ne) {
                    Some(k) => {
                        proof {
                            assert(first_props_at(items@, i as int));
                            assert(named_props_spec_at(items@[i as int], k as int));
                        }
                        match &ne.specifiers[k] {
                            ExportSpec::Named(en) => {
                                match &ne.src {
                                    Some(_) => {
                                        let ot = mod_name_text(&en.orig);
                                        let et = exported_text_exec(en);
                                        if ot == et {
                                            proof {
                                                assert(props_skip_at(items@, i as int));
                                            }
                                            return Target::Skip;
                                        }
                                        return Target::SourceSpec { item: i, spec: k };
                                    },
                                    None => match &en.orig {
                                        ModName::Ident(xs) => {
                                            let rn = exported_text_exec(en);
                                            match resolve_local(items, xs, &rn, WrapKind::Props) {
                                                Resolved::RNone => {
                                                    proof {
                                                        assert(props_unresolvable_at(
                                                            items@,
                                                            i as int,
                                                        ));
                                                    }
                                                    return Target::NotFound;
                                                },
                                                Resolved::RSkip => {
                                                    proof {
                                                        assert(props_skip_at(items@, i as int));
                                                    }
                                                    return Target::Skip;
                                                },
                                                Resolved::RSite(site) => {
                                                    return Target::LocalSpec {
                                                        item: i,
                                                        spec: k,
                                                        site,
                                                    };
                                                },
                                            }
                                        },
                                        ModName::Str(_) => {
                                            proof {
                                                assert(props_unresolvable_at(items@, i as int));
                                            }
                                            return Target::NotFound;
                                        },
                                    },
                                }
                            },
                            _ => {
                                proof {
                                    assert(false);
                                }
                            },
                        }
                    },
                    None => {},
                }
            },
            _ => {},
        }
        proof {
            assert(!props_fwd_match(items@[i as int]));
        }
        i = i + 1;
    }
    Target::NotFound
}

/// The default-export half of the locator: scan the items forward for the
/// first default export, resolving a bare local reference backward.  A
/// re-export of another module's default, and a value already wrapped by the
/// page adapter, are `Skip`.
pub fn locate_default(items: &Vec<Item>) -> (t: Target)
    ensures
        default_target_ok(items@, t),
{
    let mut i: usize = 0;
    while i < items.len()
        invariant
            i <= items@.len(),
            forall|i2: int| 0 <= i2 < i ==> !default_fwd_match(#[trigger] items@[i2]),
        decreases items@.len() - i,
    {
        match &items[i] {
            Item::ExportDefaultExpr(e) => {
                proof {
                    assert(first_default_at(items@, i as int));
                }
                let adapter = names::page_local_str();
                if crate::utils::expr_is_adapter_call(e, &adapter) {
                    proof {
                        assert(default_skip_at(items@, i as int));
                    }
                    return Target::Skip;
                }
                return Target::DefaultExpr { item: i };
            },
            Item::ExportDefaultDecl(dd) => {
                let is_opaque = match dd {
                    crate::ast::DefaultDecl::Opaque(_) => true,
                    _ => false,
                };
                if !is_opaque {
                    proof {
                        assert(default_decl_match(items@[i as int]));
                        assert(first_default_at(items@, i as int));
                    }
                    return Target::DefaultDecl { item: i };
                }
            },
            Item::ExportNamed(ne) => {
                match find_default_spec(ne) {
                    Some(k) => {
                        proof {
                            assert(first_default_at(items@, i as int));
                            assert(named_default_spec_at(items@[i as int], k as int));
                        }
                        match &ne.specifiers[k] {
                            ExportSpec::Named(en) => {
                                match &ne.src {
                                    Some(_) => {
                                        let ot = mod_name_text(&en.orig);
                                        if ot == names::default_str() {
                                            proof {
                                                assert(default_skip_at(items@, i as int));
                                            }
                                            return Target::Skip;
                                        }
                                        return Target::SourceSpec { item: i, spec: k };
                                    },
                                    None => match &en.orig {
                                        ModName::Ident(xs) => {
                                            let rn = names::default_str();
                                            match resolve_local(items, xs, &rn, WrapKind::Page) {
                                                Resolved::RNone => {
                                                    proof {
                                                        assert(default_unresolvable_at(
                                                            items@,
                                                            i as int,
                                                        ));
                                                    }
                                                    return Target::NotFound;
                                                },
                                                Resolved::RSkip => {
                                                    proof {
                                                        assert(default_skip_at(items@, i as int));
                                                    }
                                                    return Target::Skip;
                                                },
                                                Resolved::RSite(site) => {
                                                    return Target::LocalSpec {
                                                        item: i,
                                                        spec: k,
                                                        site,
                                                    };
                                                },
                                            }
                                        },
                                        ModName::Str(_) => {
                                            proof {
                                                assert(default_unresolvable_at(items@, i as int));
                                            }
                                            return Target::NotFound;
                                        },
                                    },
                                }
                            },
                            _ => {
                                proof {
                                    assert(false);
                                }
                            },
                        }
                    },
                    None => {},
                }
            },
            _ => {},
        }
        proof {
            assert(!default_fwd_match(items@[i as int]));
        }
        i = i + 1;
    }
    Target::NotFound
}


// The rewriter: what each rewritten item must look like.

/// The reserved temporary local of the bridging import on each side.
pub open spec fn bridge_local_name(kind: WrapKind) -> Seq<char> {
    match kind {
        WrapKind::Props => names::props_bridge_local_name(),
        WrapKind::Page => names::page_bridge_local_name(),
    }
}

/// The reserved name of the bridging constant on each side.
pub open spec fn bridge_orig_name(kind: WrapKind) -> Seq<char> {
    match kind {
        WrapKind::Props => names::props_bridge_orig_name(),
        WrapKind::Page => names::page_bridge_orig_name(),
    }
}

/// Is `r` the call `_withSuperJSONProps(orig, [excluded...])`?
pub open spec fn is_props_call(r: Expr, orig: Expr, excl: Seq<String>) -> bool {
    &&& r matches Expr::Call(c)
    &&& is_ident_expr(*c.callee, names::props_local_name())
    &&& c.args@.len() == 2
    &&& !c.args@[0].spread
    &&& c.args@[0].expr == orig
    &&& is_excluded_array(c.args@[1], excl)
}

/// Is `r` the call `_withSuperJSONPage(orig)`?
pub open spec fn is_page_call(r: Expr, orig: Expr) -> bool {
    &&& r matches Expr::Call(c)
    &&& is_ident_expr(*c.callee, names::page_local_name())
    &&& c.args@.len() == 1
    &&& !c.args@[0].spread
    &&& c.args@[0].expr == orig
}

/// Is `r` the adapter call of `kind` around `orig`?
pub open spec fn wrapped_value(e1: Expr, e0: Expr, kind: WrapKind, excl: Seq<String>) -> bool {
    match kind {
        WrapKind::Props => is_props_call(e1, e0, excl),
        WrapKind::Page => is_page_call(e1, e0),
    }
}

/// Is `e` the adapter call of `kind` around the identifier `orig_name`?
pub open spec fn wrapped_ident_value(
    e: Expr,
    orig_name: Seq<char>,
    kind: WrapKind,
    excl: Seq<String>,
) -> bool {
    &&& e matches Expr::Call(c)
    &&& is_ident_expr(*c.callee, adapter_local_of(kind))
    &&& c.args@.len() >= 1
    &&& !c.args@[0].spread
    &&& is_ident_expr(c.args@[0].expr, orig_name)
    &&& match kind {
        WrapKind::Props => c.args@.len() == 2 && is_excluded_array(c.args@[1], excl),
        WrapKind::Page => c.args@.len() == 1,
    }
}

/// `d` is the constant `const <name of fd> = <adapter>(<function expression
/// of fd>, ...)`, the wrapped form of the function declaration `fd`.
pub open spec fn wrapped_fn_decl(fd: FnDecl, d: Decl, kind: WrapKind, excl: Seq<String>) -> bool {
    &&& d matches Decl::Var(vd)
    &&& vd.kind == VarKind::Const
    &&& vd.decls@.len() == 1
    &&& vd.decls@[0].name matches Binding::Ident(n) && n@ == fd.ident@
    &&& vd.decls@[0].init matches Some(e) && wrapped_value(
        e,
        Expr::Func(FnExpr { ident: None, function: fd.function }),
        kind,
        excl,
    )
}

/// A function declaration item converted to its wrapped constant form, the
/// export keyword kept as it was.
pub open spec fn item_fn_wrapped(pre: Item, post: Item, kind: WrapKind, excl: Seq<String>) -> bool {
    match pre {
        Item::Stmt(s0) => {
            &&& s0 matches Stmt::Decl(d0)
            &&& d0 matches Decl::Fn(fd)
            &&& post matches Item::Stmt(s1)
            &&& s1 matches Stmt::Decl(d1)
            &&& wrapped_fn_decl(fd, d1, kind, excl)
        },
        Item::ExportDecl(d0) => {
            &&& d0 matches Decl::Fn(fd)
            &&& post matches Item::ExportDecl(d1)
            &&& wrapped_fn_decl(fd, d1, kind, excl)
        },
        _ => false,
    }
}

/// One declarator's value wrapped, every other declarator untouched.
pub open spec fn var_wrapped_at(
    vd0: VarDecl,
    vd1: VarDecl,
    j: int,
    kind: WrapKind,
    excl: Seq<String>,
) -> bool {
    &&& vd1.kind == vd0.kind
    &&& vd1.decls@.len() == vd0.decls@.len()
    &&& 0 <= j < vd0.decls@.len()
    &&& forall|j2: int|
        0 <= j2 < vd0.decls@.len() && j2 != j ==> #[trigger] vd1.decls@[j2] == vd0.decls@[j2]
    &&& vd1.decls@[j].name == vd0.decls@[j].name
    &&& vd0.decls@[j].init matches Some(e0)
    &&& vd1.decls@[j].init matches Some(e1)
    &&& wrapped_value(e1, e0, kind, excl)
}

/// A variable declaration item with one declarator wrapped.
pub open spec fn item_var_wrapped(
    pre: Item,
    post: Item,
    j: int,
    kind: WrapKind,
    excl: Seq<String>,
) -> bool {
    match pre {
        Item::Stmt(s0) => {
            &&& s0 matches Stmt::Decl(d0)
            &&& d0 matches Decl::Var(vd0)
            &&& post matches Item::Stmt(s1)
            &&& s1 matches Stmt::Decl(d1)
            &&& d1 matches Decl::Var(vd1)
            &&& var_wrapped_at(vd0, vd1, j, kind, excl)
        },
        Item::ExportDecl(d0) => {
            &&& d0 matches Decl::Var(vd0)
            &&& post matches Item::ExportDecl(d1)
            &&& d1 matches Decl::Var(vd1)
            &&& var_wrapped_at(vd0, vd1, j, kind, excl)
        },
        _ => false,
    }
}

/// An assignment statement with its right-hand side wrapped.
pub open spec fn item_assign_wrapped(
    pre: Item,
    post: Item,
    kind: WrapKind,
    excl: Seq<String>,
) -> bool {
    &&& pre matches Item::Stmt(s0)
    &&& s0 matches Stmt::Assign(a0)
    &&& post matches Item::Stmt(s1)
    &&& s1 matches Stmt::Assign(a1)
    &&& a1.target == a0.target
    &&& a1.plain == a0.plain
    &&& wrapped_value(a1.value, a0.value, kind, excl)
}

/// An import declaration with one named specifier renamed to the reserved
/// bridge local, its imported name made explicit, every other specifier
/// untouched.
pub open spec fn item_import_renamed(pre: Item, post: Item, m: int, kind: WrapKind) -> bool {
    &&& pre matches Item::Import(d0)
    &&& post matches Item::Import(d1)
    &&& d1.src == d0.src
    &&& d1.specifiers@.len() == d0.specifiers@.len()
    &&& 0 <= m < d0.specifiers@.len()
    &&& forall|m2: int|
        0 <= m2 < d0.specifiers@.len() && m2 != m ==> #[trigger] d1.specifiers@[m2]
            == d0.specifiers@[m2]
    &&& d0.specifiers@[m] matches ImportSpec::Named(n0)
    &&& d1.specifiers@[m] matches ImportSpec::Named(n1)
    &&& n1.local@ == bridge_local_name(kind)
    &&& match n0.imported {
        Some(_) => n1.imported == n0.imported,
        None => n1.imported matches Some(mn) && mn matches ModName::Ident(t) && t == n0.local,
    }
}

/// The bridging constant of one side.
pub open spec fn is_bridge_const(it: Item, kind: WrapKind, excl: Seq<String>) -> bool {
    &&& it matches Item::Stmt(s)
    &&& s matches Stmt::Decl(d)
    &&& d matches Decl::Var(vd)
    &&& vd.kind == VarKind::Const
    &&& vd.decls@.len() == 1
    &&& vd.decls@[0].name matches Binding::Ident(n) && n@ == bridge_orig_name(kind)
    &&& vd.decls@[0].init matches Some(e) && wrapped_ident_value(
        e,
        bridge_local_name(kind),
        kind,
        excl,
    )
}

/// A named export with one specifier redirected to export the bridging
/// constant under the original external name, every other specifier
/// untouched.
pub open spec fn item_spec_updated(pre: Item, post: Item, k: int, kind: WrapKind) -> bool {
    &&& pre matches Item::ExportNamed(ne0)
    &&& post matches Item::ExportNamed(ne1)
    &&& ne1.src == ne0.src
    &&& ne1.specifiers@.len() == ne0.specifiers@.len()
    &&& 0 <= k < ne0.specifiers@.len()
    &&& forall|k2: int|
        0 <= k2 < ne0.specifiers@.len() && k2 != k ==> #[trigger] ne1.specifiers@[k2]
            == ne0.specifiers@[k2]
    &&& ne0.specifiers@[k] matches ExportSpec::Named(en0)
    &&& ne1.specifiers@[k] matches ExportSpec::Named(en1)
    &&& en1.orig matches ModName::Ident(t) && t@ == bridge_orig_name(kind)
    &&& match en0.exported {
        Some(_) => en1.exported == en0.exported,
        None => en1.exported matches Some(x) && x == en0.orig,
    }
}

/// How many items replace a re-export-with-source item: the bridging triple,
/// plus the remainder export when other specifiers stay.
pub open spec fn extract_len(pre: Item) -> nat {
    if pre matches Item::ExportNamed(ne) && ne.specifiers@.len() > 1 {
        4
    } else {
        3
    }
}

/// A re-export with a source split into its bridging sequence: a plain
/// import of the original name under the bridge local, the bridging
/// constant, an export of the constant under the original external name,
/// and the source export kept for its remaining specifiers.
pub open spec fn extract_ok(
    pre: Item,
    k: int,
    kind: WrapKind,
    excl: Seq<String>,
    out: Seq<Item>,
) -> bool {
    &&& pre matches Item::ExportNamed(ne0)
    &&& 0 <= k < ne0.specifiers@.len()
    &&& ne0.specifiers@[k] matches ExportSpec::Named(en0)
    &&& ne0.src matches Some(srcs)
    &&& out.len() == extract_len(pre)
    &&& is_bridge_import(out[0], en0.orig, bridge_local_name(kind), srcs@)
    &&& is_bridge_const(out[1], kind, excl)
    &&& out[2] matches Item::ExportNamed(ne2)
    &&& ne2.src is None
    &&& ne2.specifiers@.len() == 1
    &&& ne2.specifiers@[0] matches ExportSpec::Named(en2)
    &&& en2.orig matches ModName::Ident(t) && t@ == bridge_orig_name(kind)
    &&& match en0.exported {
        Some(_) => en2.exported == en0.exported,
        None => en2.exported matches Some(x) && x == en0.orig,
    }
    &&& ne0.specifiers@.len() > 1 ==> {
        &&& out[3] matches Item::ExportNamed(ne3)
        &&& ne3.src == ne0.src
        &&& ne3.specifiers@ == ne0.specifiers@.remove(k)
    }
}

/// How many items replace a default-exported declaration: two when it is
/// named and must stay referable, one when it is anonymous.
pub open spec fn default_decl_len(pre: Item) -> nat {
    if pre matches Item::ExportDefaultDecl(dd) && ((dd matches DefaultDecl::Fn(fe) && fe.ident
        is Some) || (dd matches DefaultDecl::Class(ce) && ce.ident is Some)) {
        2
    } else {
        1
    }
}

/// Is `e` the page adapter call around the identifier `name`?
pub open spec fn is_page_call_ident(e: Expr, name: Seq<char>) -> bool {
    &&& e matches Expr::Call(c)
    &&& is_ident_expr(*c.callee, names::page_local_name())
    &&& c.args@.len() == 1
    &&& !c.args@[0].spread
    &&& is_ident_expr(c.args@[0].expr, name)
}

/// A default-exported declaration rewritten: a named one is declared first
/// and then default-exported through the page adapter; an anonymous one is
/// wrapped as an expression directly.
pub open spec fn default_decl_out(pre: Item, out: Seq<Item>) -> bool {
    &&& pre matches Item::ExportDefaultDecl(dd)
    &&& match dd {
        DefaultDecl::Fn(fe) => match fe.ident {
            Some(name) => {
                &&& out.len() == 2
                &&& out[0] matches Item::Stmt(s)
                &&& s matches Stmt::Decl(d)
                &&& d matches Decl::Fn(fd)
                &&& fd.ident == name
                &&& fd.function == fe.function
                &&& out[1] matches Item::ExportDefaultExpr(e)
                &&& is_page_call_ident(e, name@)
            },
            None => {
                &&& out.len() == 1
                &&& out[0] matches Item::ExportDefaultExpr(e)
                &&& is_page_call(e, Expr::Func(fe))
            },
        },
        DefaultDecl::Class(ce) => match ce.ident {
            Some(name) => {
                &&& out.len() == 2
                &&& out[0] matches Item::Stmt(s)
                &&& s matches Stmt::Decl(d)
                &&& d matches Decl::Class(cd)
                &&& cd.ident == name
                &&& cd.members == ce.members
                &&& cd.shell == ce.shell
                &&& out[1] matches Item::ExportDefaultExpr(e)
                &&& is_page_call_ident(e, name@)
            },
            None => {
                &&& out.len() == 1
                &&& out[0] matches Item::ExportDefaultExpr(e)
                &&& is_page_call(e, Expr::Class(ce))
            },
        },
        DefaultDecl::Opaque(_) => false,
    }
}

// --- which item each target modifies ---

/// Does target `t` rewrite item `i` of the original list?
pub open spec fn touches(t: Target, i: int) -> bool {
    match t {
        Target::NotFound => false,
        Target::Skip => false,
        Target::ExportFn { item } => i == item,
        Target::ExportVar { item, .. } => i == item,
        Target::DefaultExpr { item } => i == item,
        Target::DefaultDecl { item } => i == item,
        Target::LocalSpec { item, spec, site } => match site {
            Site::ImportSite { item: l, .. } => i == item || i == l,
            Site::Assign { item: l } => i == l,
            Site::FnSite { item: l } => i == l,
            Site::VarSite { item: l, .. } => i == l,
        },
        Target::SourceSpec { item, .. } => i == item,
    }
}

/// The two targets collide on some item: the module is then left unwrapped,
/// because a half-rewritten item is worse than an unwrapped one.
pub open spec fn conflict(pt: Target, dt: Target) -> bool {
    exists|i: int| #[trigger] touches(pt, i) && touches(dt, i)
}

/// The specifier index `t` updates at item `i`, when its site is an import.
pub open spec fn updates_spec_at(t: Target, i: int) -> Option<int> {
    match t {
        Target::LocalSpec { item, spec, site } => match site {
            Site::ImportSite { .. } => if item == i {
                Some(spec as int)
            } else {
                None
            },
            _ => None,
        },
        _ => None,
    }
}

/// The import specifier index `t` renames at item `i`.
pub open spec fn renames_import_at(t: Target, i: int) -> Option<int> {
    match t {
        Target::LocalSpec { site, .. } => match site {
            Site::ImportSite { item: l, spec: m } => if l == i {
                Some(m as int)
            } else {
                None
            },
            _ => None,
        },
        _ => None,
    }
}

/// The declarator index `t` wraps at item `i`.
pub open spec fn wraps_var_at(t: Target, i: int) -> Option<int> {
    match t {
        Target::ExportVar { item, decl } => if item == i {
            Some(decl as int)
        } else {
            None
        },
        Target::LocalSpec { site, .. } => match site {
            Site::VarSite { item: l, decl } => if l == i {
                Some(decl as int)
            } else {
                None
            },
            _ => None,
        },
        _ => None,
    }
}

/// Does `t` wrap an assignment at item `i`?
pub open spec fn wraps_assign_at(t: Target, i: int) -> bool {
    match t {
        Target::LocalSpec { site, .. } => site matches Site::Assign { item: l } && l == i,
        _ => false,
    }
}

/// Does `t` convert a function declaration at item `i`?
pub open spec fn wraps_fn_at(t: Target, i: int) -> bool {
    match t {
        Target::ExportFn { item } => i == item,
        Target::LocalSpec { site, .. } => site matches Site::FnSite { item: l } && l == i,
        _ => false,
    }
}

/// The extracted specifier index of `t` at item `i`.
pub open spec fn extracts_at(t: Target, i: int) -> Option<int> {
    match t {
        Target::SourceSpec { item, spec } => if item == i {
            Some(spec as int)
        } else {
            None
        },
        _ => None,
    }
}

/// Does `dt` wrap a default-exported expression at item `i`?
pub open spec fn wraps_default_expr_at(t: Target, i: int) -> bool {
    t matches Target::DefaultExpr { item } && item == i
}

/// Does `dt` split a default-exported declaration at item `i`?
pub open spec fn wraps_default_decl_at(t: Target, i: int) -> bool {
    t matches Target::DefaultDecl { item } && item == i
}

/// How many items stand for item `i` in the rewritten list.
pub open spec fn repl_len_at(items: Seq<Item>, pt: Target, dt: Target, i: int) -> nat {
    if extracts_at(pt, i) is Some || extracts_at(dt, i) is Some {
        extract_len(items[i])
    } else if renames_import_at(pt, i) is Some || renames_import_at(dt, i) is Some {
        2
    } else if wraps_default_decl_at(dt, i) {
        default_decl_len(items[i])
    } else {
        1
    }
}

/// What stands for item `i` in the rewritten list.
pub open spec fn repl_ok(
    items: Seq<Item>,
    pt: Target,
    dt: Target,
    excl: Seq<String>,
    i: int,
    out: Seq<Item>,
) -> bool {
    if extracts_at(pt, i) is Some {
        extract_ok(items[i], extracts_at(pt, i)->Some_0, WrapKind::Props, excl, out)
    } else if extracts_at(dt, i) is Some {
        extract_ok(items[i], extracts_at(dt, i)->Some_0, WrapKind::Page, excl, out)
    } else if renames_import_at(pt, i) is Some {
        &&& out.len() == 2
        &&& item_import_renamed(items[i], out[0], renames_import_at(pt, i)->Some_0, WrapKind::Props)
        &&& is_bridge_const(out[1], WrapKind::Props, excl)
    } else if renames_import_at(dt, i) is Some {
        &&& out.len() == 2
        &&& item_import_renamed(items[i], out[0], renames_import_at(dt, i)->Some_0, WrapKind::Page)
        &&& is_bridge_const(out[1], WrapKind::Page, excl)
    } else if updates_spec_at(pt, i) is Some {
        out.len() == 1 && item_spec_updated(items[i], out[0], updates_spec_at(pt, i)->Some_0, WrapKind::Props)
    } else if updates_spec_at(dt, i) is Some {
        out.len() == 1 && item_spec_updated(items[i], out[0], updates_spec_at(dt, i)->Some_0, WrapKind::Page)
    } else if wraps_var_at(pt, i) is Some {
        out.len() == 1 && item_var_wrapped(items[i], out[0], wraps_var_at(pt, i)->Some_0, WrapKind::Props, excl)
    } else if wraps_var_at(dt, i) is Some {
        out.len() == 1 && item_var_wrapped(items[i], out[0], wraps_var_at(dt, i)->Some_0, WrapKind::Page, excl)
    } else if wraps_assign_at(pt, i) {
        out.len() == 1 && item_assign_wrapped(items[i], out[0], WrapKind::Props, excl)
    } else if wraps_assign_at(dt, i) {
        out.len() == 1 && item_assign_wrapped(items[i], out[0], WrapKind::Page, excl)
    } else if wraps_fn_at(pt, i) {
        out.len() == 1 && item_fn_wrapped(items[i], out[0], WrapKind::Props, excl)
    } else if wraps_fn_at(dt, i) {
        out.len() == 1 && item_fn_wrapped(items[i], out[0], WrapKind::Page, excl)
    } else if wraps_default_expr_at(dt, i) {
        &&& out.len() == 1
        &&& items[i] matches Item::ExportDefaultExpr(e0)
        &&& out[0] matches Item::ExportDefaultExpr(e1)
        &&& is_page_call(e1, e0)
    } else if wraps_default_decl_at(dt, i) {
        default_decl_out(items[i], out)
    } else {
        out.len() == 1 && out[0] == items[i]
    }
}

/// Where item `i`'s replacement starts in the rewritten list.
pub open spec fn out_pos(items: Seq<Item>, pt: Target, dt: Target, i: int) -> nat
    decreases i,
{
    if i <= 0 {
        0
    } else {
        out_pos(items, pt, dt, i - 1) + repl_len_at(items, pt, dt, i - 1)
    }
}

/// The whole rewritten list: each item replaced as `repl_ok` says, in order.
pub open spec fn rewritten_rel(
    items: Seq<Item>,
    pt: Target,
    dt: Target,
    excl: Seq<String>,
    out: Seq<Item>,
) -> bool {
    &&& out.len() == out_pos(items, pt, dt, items.len() as int)
    &&& forall|i: int|
        0 <= i < items.len() ==> repl_ok(
            items,
            pt,
            dt,
            excl,
            i,
            #[trigger] out.subrange(
                out_pos(items, pt, dt, i) as int,
                out_pos(items, pt, dt, i) + repl_len_at(items, pt, dt, i) as int,
            ),
        )
}


// The rewriter's executable pieces.


/// Wrap an expression with the adapter of `kind`.
fn wrap_expr(e: Expr, kind: WrapKind, excluded: &Vec<String>) -> (r: Expr)
    ensures
        wrapped_value(r, e, kind, excluded@),
{
    match kind {
        WrapKind::Props => e.wrap_props(excluded_arg(excluded)),
        WrapKind::Page => e.wrap_page(),
    }
}

/// Convert a function declaration item into its wrapped constant form.
fn wrap_fn_item(it: Item, kind: WrapKind, excluded: &Vec<String>) -> (r: Item)
    requires
        item_decl(it) matches Some(d) && d matches Decl::Fn(_),
    ensures
        item_fn_wrapped(it, r, kind, excluded@),
{
    match it {
        Item::Stmt(s) => match s {
            Stmt::Decl(d) => match d {
                Decl::Fn(fd) => Item::Stmt(Stmt::Decl(fn_decl_wrapped(fd, kind, excluded))),
                _ => {
                    proof {
                        assert(false);
                    }
                    Item::Stmt(Stmt::Decl(d))
                },
            },
            _ => {
                proof {
                    assert(false);
                }
                Item::Stmt(s)
            },
        },
        Item::ExportDecl(d) => match d {
            Decl::Fn(fd) => Item::ExportDecl(fn_decl_wrapped(fd, kind, excluded)),
            _ => {
                proof {
                    assert(false);
                }
                Item::ExportDecl(d)
            },
        },
        _ => {
            proof {
                assert(false);
            }
            it
        },
    }
}

/// The wrapped constant form of a function declaration.
fn fn_decl_wrapped(fd: FnDecl, kind: WrapKind, excluded: &Vec<String>) -> (r: Decl)
    ensures
        wrapped_fn_decl(fd, r, kind, excluded@),
{
    match kind {
        WrapKind::Props => fd.as_wrapped_var_decl(excluded_arg(excluded)),
        WrapKind::Page => {
            let init = Expr::Func(FnExpr { ident: None, function: fd.function }).wrap_page();
            let mut decls: Vec<VarDeclarator> = Vec::new();
            decls.push(VarDeclarator { name: Binding::Ident(fd.ident), init: Some(init) });
            Decl::Var(VarDecl { kind: VarKind::Const, decls })
        },
    }
}

/// Wrap the value of one declarator of a variable declaration item.
fn wrap_var_item(it: Item, j: usize, kind: WrapKind, excluded: &Vec<String>) -> (r: Item)
    requires
        item_decl(it) matches Some(d) ==> {
            &&& d matches Decl::Var(vd)
            &&& j < vd.decls@.len()
            &&& vd.decls@[j as int].init is Some
        },
        item_decl(it) is Some,
    ensures
        item_var_wrapped(it, r, j as int, kind, excluded@),
{
    match it {
        Item::Stmt(s) => match s {
            Stmt::Decl(d) => match d {
                Decl::Var(vd) => Item::Stmt(Stmt::Decl(Decl::Var(var_decl_wrapped(
                    vd,
                    j,
                    kind,
                    excluded,
                )))),
                _ => {
                    proof {
                        assert(false);
                    }
                    Item::Stmt(Stmt::Decl(d))
                },
            },
            _ => {
                proof {
                    assert(false);
                }
                Item::Stmt(s)
            },
        },
        Item::ExportDecl(d) => match d {
            Decl::Var(vd) => Item::ExportDecl(Decl::Var(var_decl_wrapped(vd, j, kind, excluded))),
            _ => {
                proof {
                    assert(false);
                }
                Item::ExportDecl(d)
            },
        },
        _ => {
            proof {
                assert(false);
            }
            it
        },
    }
}

/// Wrap the value of one declarator, leaving the others alone.
fn var_decl_wrapped(vd: VarDecl, j: usize, kind: WrapKind, excluded: &Vec<String>) -> (r: VarDecl)
    requires
        j < vd.decls@.len(),
        vd.decls@[j as int].init is Some,
    ensures
        var_wrapped_at(vd, r, j as int, kind, excluded@),
{
    let mut vd = vd;
    let ghost pre = vd.decls@;
    let dec = vd.decls.remove(j);
    let init = match dec.init {
        Some(e) => e,
        None => {
            proof {
                assert(false);
            }
            Expr::Opaque(0)
        },
    };
    let wrapped = wrap_expr(init, kind, excluded);
    vd.decls.insert(j, VarDeclarator { name: dec.name, init: Some(wrapped) });
    proof {
        assert(vd.decls@.len() == pre.len());
        assert forall|j2: int| 0 <= j2 < pre.len() && j2 != j implies #[trigger] vd.decls@[j2]
            == pre[j2] by {
            if j2 < j {
                assert(vd.decls@[j2] == pre.remove(j as int).insert(j as int, vd.decls@[j as int])[j2]);
            }
        }
    }
    vd
}

/// Wrap the right-hand side of an assignment item.
fn wrap_assign_item(it: Item, kind: WrapKind, excluded: &Vec<String>) -> (r: Item)
    requires
        it matches Item::Stmt(s) && s matches Stmt::Assign(_),
    ensures
        item_assign_wrapped(it, r, kind, excluded@),
{
    match it {
        Item::Stmt(s) => match s {
            Stmt::Assign(a) => {
                let value = wrap_expr(a.value, kind, excluded);
                Item::Stmt(Stmt::Assign(AssignStmt { target: a.target, plain: a.plain, value }))
            },
            _ => {
                proof {
                    assert(false);
                }
                Item::Stmt(s)
            },
        },
        _ => {
            proof {
                assert(false);
            }
            it
        },
    }
}

/// Wrap a default-exported expression item with the page adapter.
fn wrap_default_expr_item(it: Item) -> (r: Item)
    requires
        it matches Item::ExportDefaultExpr(_),
    ensures
        it matches Item::ExportDefaultExpr(e0) ==> r matches Item::ExportDefaultExpr(e1)
            && is_page_call(e1, e0),
{
    match it {
        Item::ExportDefaultExpr(e) => Item::ExportDefaultExpr(e.wrap_page()),
        _ => {
            proof {
                assert(false);
            }
            it
        },
    }
}

/// Split a default-exported declaration: declare it, then default-export the
/// page adapter call around its name; wrap an anonymous one directly.
fn default_decl_items(it: Item) -> (r: Vec<Item>)
    requires
        it matches Item::ExportDefaultDecl(dd) && !(dd matches DefaultDecl::Opaque(_)),
    ensures
        default_decl_out(it, r@),
        r@.len() == default_decl_len(it),
{
    let mut out: Vec<Item> = Vec::new();
    match it {
        Item::ExportDefaultDecl(dd) => match dd {
            DefaultDecl::Fn(fe) => match fe.ident {
                Some(name) => {
                    let arg = Expr::Ident(name.clone());
                    out.push(Item::Stmt(Stmt::Decl(Decl::Fn(FnDecl {
                        ident: name,
                        function: fe.function,
                    }))));
                    out.push(Item::ExportDefaultExpr(arg.wrap_page()));
                },
                None => {
                    out.push(Item::ExportDefaultExpr(
                        Expr::Func(FnExpr { ident: None, function: fe.function }).wrap_page(),
                    ));
                },
            },
            DefaultDecl::Class(ce) => match ce.ident {
                Some(name) => {
                    let arg = Expr::Ident(name.clone());
                    out.push(Item::Stmt(Stmt::Decl(Decl::Class(ClassDecl {
                        ident: name,
                        members: ce.members,
                        shell: ce.shell,
                    }))));
                    out.push(Item::ExportDefaultExpr(arg.wrap_page()));
                },
                None => {
                    out.push(Item::ExportDefaultExpr(
                        Expr::Class(ce).wrap_page(),
                    ));
                },
            },
            DefaultDecl::Opaque(_) => {
                proof {
                    assert(false);
                }
            },
        },
        _ => {
            proof {
                assert(false);
            }
        },
    }
    out
}

/// Copy a module export name.
fn mod_name_dup(m: &ModName) -> (r: ModName)
    ensures
        r == *m,
{
    match m {
        ModName::Ident(s) => ModName::Ident(s.clone()),
        ModName::Str(s) => ModName::Str(s.clone()),
    }
}

/// Rename one named import specifier to the reserved bridge local of `kind`.
fn rename_import_item(it: Item, m: usize, kind: WrapKind) -> (r: Item)
    requires
        it matches Item::Import(d) ==> {
            &&& m < d.specifiers@.len()
            &&& d.specifiers@[m as int] matches ImportSpec::Named(_)
        },
        it is Import,
    ensures
        item_import_renamed(it, r, m as int, kind),
{
    match it {
        Item::Import(d) => {
            let mut d = d;
            let ghost pre = d.specifiers@;
            let sp = d.specifiers.remove(m);
            let n0 = match sp {
                ImportSpec::Named(n) => n,
                _ => {
                    proof {
                        assert(false);
                    }
                    ImportNamed { local: names::default_str(), imported: None }
                },
            };
            let local = match kind {
                WrapKind::Props => names::props_bridge_local_str(),
                WrapKind::Page => names::page_bridge_local_str(),
            };
            let imported = match n0.imported {
                Some(x) => Some(x),
                None => Some(ModName::Ident(n0.local)),
            };
            d.specifiers.insert(m, ImportSpec::Named(ImportNamed { local, imported }));
            proof {
                assert(d.specifiers@.len() == pre.len());
                assert forall|m2: int| 0 <= m2 < pre.len() && m2 != m implies #[trigger] d.specifiers@[m2]
                    == pre[m2] by {}
            }
            Item::Import(d)
        },
        _ => {
            proof {
                assert(false);
            }
            it
        },
    }
}

/// The bridging constant of `kind`.
fn bridge_const_item(kind: WrapKind, excluded: &Vec<String>) -> (r: Item)
    ensures
        is_bridge_const(r, kind, excluded@),
{
    match kind {
        WrapKind::Props => temp_props_item(excluded_arg(excluded)),
        WrapKind::Page => temp_page_item(),
    }
}

/// Redirect one export specifier to the bridging constant, keeping the
/// external name.
fn update_spec_item(it: Item, k: usize, kind: WrapKind) -> (r: Item)
    requires
        it matches Item::ExportNamed(ne) ==> {
            &&& k < ne.specifiers@.len()
            &&& ne.specifiers@[k as int] matches ExportSpec::Named(_)
        },
        it is ExportNamed,
    ensures
        item_spec_updated(it, r, k as int, kind),
{
    match it {
        Item::ExportNamed(ne) => {
            let mut ne = ne;
            let ghost pre = ne.specifiers@;
            let sp = ne.specifiers.remove(k);
            let en0 = match sp {
                ExportSpec::Named(en) => en,
                _ => {
                    proof {
                        assert(false);
                    }
                    ExportNamedSpec { orig: ModName::Ident(names::default_str()), exported: None }
                },
            };
            let orig = match kind {
                WrapKind::Props => ModName::Ident(names::props_bridge_orig_str()),
                WrapKind::Page => ModName::Ident(names::page_bridge_orig_str()),
            };
            let exported = match en0.exported {
                Some(x) => Some(x),
                None => Some(en0.orig),
            };
            ne.specifiers.insert(k, ExportSpec::Named(ExportNamedSpec { orig, exported }));
            proof {
                assert(ne.specifiers@.len() == pre.len());
                assert forall|k2: int| 0 <= k2 < pre.len() && k2 != k implies #[trigger] ne.specifiers@[k2]
                    == pre[k2] by {}
            }
            Item::ExportNamed(ne)
        },
        _ => {
            proof {
                assert(false);
            }
            it
        },
    }
}

/// Split a re-export with a source into its bridging sequence.
fn extract_items(it: Item, k: usize, kind: WrapKind, excluded: &Vec<String>) -> (r: Vec<Item>)
    requires
        it matches Item::ExportNamed(ne) ==> {
            &&& k < ne.specifiers@.len()
            &&& ne.specifiers@[k as int] matches ExportSpec::Named(_)
            &&& ne.src is Some
        },
        it is ExportNamed,
    ensures
        extract_ok(it, k as int, kind, excluded@, r@),
        r@.len() == extract_len(it),
{
    let mut out: Vec<Item> = Vec::new();
    match it {
        Item::ExportNamed(ne) => {
            let ghost pre_specs = ne.specifiers@;
            let mut ne = ne;
            let sp = ne.specifiers.remove(k);
            let en0 = match sp {
                ExportSpec::Named(en) => en,
                _ => {
                    proof {
                        assert(false);
                    }
                    ExportNamedSpec { orig: ModName::Ident(names::default_str()), exported: None }
                },
            };
            let srcs = match &ne.src {
                Some(s) => s.clone(),
                None => {
                    proof {
                        assert(false);
                    }
                    names::default_str()
                },
            };
            let local = match kind {
                WrapKind::Props => names::props_bridge_local_str(),
                WrapKind::Page => names::page_bridge_local_str(),
            };
            let orig_dup = mod_name_dup(&en0.orig);
            out.push(temp_import_item(orig_dup, local, &srcs));
            out.push(bridge_const_item(kind, excluded));
            let new_orig = match kind {
                WrapKind::Props => ModName::Ident(names::props_bridge_orig_str()),
                WrapKind::Page => ModName::Ident(names::page_bridge_orig_str()),
            };
            let exported = match en0.exported {
                Some(x) => Some(x),
                None => Some(en0.orig),
            };
            let mut new_specs: Vec<ExportSpec> = Vec::new();
            new_specs.push(ExportSpec::Named(ExportNamedSpec { orig: new_orig, exported }));
            out.push(Item::ExportNamed(NamedExport { specifiers: new_specs, src: None }));
            if ne.specifiers.len() > 0 {
                out.push(Item::ExportNamed(ne));
            }
        },
        _ => {
            proof {
                assert(false);
            }
        },
    }
    out
}


// The rewriter's main pass.


/// The extracted specifier of `t` at item `i`, executably.
fn extracts_at_exec(t: Target, i: usize) -> (r: Option<usize>)
    ensures
        r is Some <==> extracts_at(t, i as int) is Some,
        r matches Some(k) ==> extracts_at(t, i as int) == Some(k as int),
{
    match t {
        Target::SourceSpec { item, spec } => if item == i {
            Some(spec)
        } else {
            None
        },
        _ => None,
    }
}

/// The renamed import specifier of `t` at item `i`, executably.
fn renames_import_at_exec(t: Target, i: usize) -> (r: Option<usize>)
    ensures
        r is Some <==> renames_import_at(t, i as int) is Some,
        r matches Some(m) ==> renames_import_at(t, i as int) == Some(m as int),
{
    match t {
        Target::LocalSpec { site, .. } => match site {
            Site::ImportSite { item: l, spec: m } => if l == i {
                Some(m)
            } else {
                None
            },
            _ => None,
        },
        _ => None,
    }
}

/// The updated export specifier of `t` at item `i`, executably.
fn updates_spec_at_exec(t: Target, i: usize) -> (r: Option<usize>)
    ensures
        r is Some <==> updates_spec_at(t, i as int) is Some,
        r matches Some(k) ==> updates_spec_at(t, i as int) == Some(k as int),
{
    match t {
        Target::LocalSpec { item, spec, site } => match site {
            Site::ImportSite { .. } => if item == i {
                Some(spec)
            } else {
                None
            },
            _ => None,
        },
        _ => None,
    }
}

/// The wrapped declarator of `t` at item `i`, executably.
fn wraps_var_at_exec(t: Target, i: usize) -> (r: Option<usize>)
    ensures
        r is Some <==> wraps_var_at(t, i as int) is Some,
        r matches Some(j) ==> wraps_var_at(t, i as int) == Some(j as int),
{
    match t {
        Target::ExportVar { item, decl } => if item == i {
            Some(decl)
        } else {
            None
        },
        Target::LocalSpec { site, .. } => match site {
            Site::VarSite { item: l, decl } => if l == i {
                Some(decl)
            } else {
                None
            },
            _ => None,
        },
        _ => None,
    }
}

/// Does `t` wrap an assignment at item `i`, executably?
fn wraps_assign_at_exec(t: Target, i: usize) -> (r: bool)
    ensures
        r == wraps_assign_at(t, i as int),
{
    match t {
        Target::LocalSpec { site, .. } => match site {
            Site::Assign { item: l } => l == i,
            _ => false,
        },
        _ => false,
    }
}

/// Does `t` convert a function declaration at item `i`, executably?
fn wraps_fn_at_exec(t: Target, i: usize) -> (r: bool)
    ensures
        r == wraps_fn_at(t, i as int),
{
    match t {
        Target::ExportFn { item } => item == i,
        Target::LocalSpec { site, .. } => match site {
            Site::FnSite { item: l } => l == i,
            _ => false,
        },
        _ => false,
    }
}

/// Does `t` wrap a default-exported expression at item `i`, executably?
fn wraps_default_expr_at_exec(t: Target, i: usize) -> (r: bool)
    ensures
        r == wraps_default_expr_at(t, i as int),
{
    match t {
        Target::DefaultExpr { item } => item == i,
        _ => false,
    }
}

/// Does `t` split a default-exported declaration at item `i`, executably?
fn wraps_default_decl_at_exec(t: Target, i: usize) -> (r: bool)
    ensures
        r == wraps_default_decl_at(t, i as int),
{
    match t {
        Target::DefaultDecl { item } => item == i,
        _ => false,
    }
}

/// Replacement starts are ordered along the module.
proof fn lemma_out_pos_mono(items: Seq<Item>, pt: Target, dt: Target, a: int, b: int)
    requires
        0 <= a <= b,
    ensures
        out_pos(items, pt, dt, a) <= out_pos(items, pt, dt, b),
    decreases b - a,
{
    if a < b {
        lemma_out_pos_mono(items, pt, dt, a, b - 1);
    }
}

/// The rewriter: one forward pass over the items, each either passed through
/// unchanged, replaced by its wrapped form, or replaced by its bridging
/// sequence, as the two position records direct.
#[verifier::loop_isolation(false)]
pub fn rewrite_items(items: Vec<Item>, pt: Target, dt: Target, excluded: &Vec<String>) -> (out:
    Vec<Item>)
    requires
        props_target_ok(items@, pt),
        default_target_ok(items@, dt),
        !conflict(pt, dt),
    ensures
        rewritten_rel(items@, pt, dt, excluded@, out@),
{
    let ghost orig = items@;
    let mut items = items;
    let total = items.len();
    let mut out: Vec<Item> = Vec::new();
    let mut i: usize = 0;
    proof {
        assert(orig.len() == total as nat);
        assert(items@ =~= orig.subrange(0, orig.len() as int));
    }
    while items.len() > 0
        invariant
            orig.len() <= usize::MAX,
            i <= orig.len(),
            items@ == orig.subrange(i as int, orig.len() as int),
            out@.len() == out_pos(orig, pt, dt, i as int),
            forall|i2: int|
                0 <= i2 < i ==> repl_ok(
                    orig,
                    pt,
                    dt,
                    excluded@,
                    i2,
                    #[trigger] out@.subrange(
                        out_pos(orig, pt, dt, i2) as int,
                        out_pos(orig, pt, dt, i2) + repl_len_at(orig, pt, dt, i2) as int,
                    ),
                ),
        decreases items@.len(),
    {
        proof {
            assert(i < orig.len());
        }
        let ghost out_pre = out@;
        let it = items.remove(0);
        proof {
            assert(it == orig[i as int]);
            assert(items@ =~= orig.subrange(i + 1int, orig.len() as int));
        }
        let mut added: Vec<Item> = Vec::new();
        if let Some(k) = extracts_at_exec(pt, i) {
            added = extract_items(it, k, WrapKind::Props, excluded);
        } else if let Some(k) = extracts_at_exec(dt, i) {
            added = extract_items(it, k, WrapKind::Page, excluded);
        } else if let Some(m) = renames_import_at_exec(pt, i) {
            added.push(rename_import_item(it, m, WrapKind::Props));
            added.push(bridge_const_item(WrapKind::Props, excluded));
        } else if let Some(m) = renames_import_at_exec(dt, i) {
            added.push(rename_import_item(it, m, WrapKind::Page));
            added.push(bridge_const_item(WrapKind::Page, excluded));
        } else if let Some(k) = updates_spec_at_exec(pt, i) {
            added.push(update_spec_item(it, k, WrapKind::Props));
        } else if let Some(k) = updates_spec_at_exec(dt, i) {
            added.push(update_spec_item(it, k, WrapKind::Page));
        } else if let Some(j) = wraps_var_at_exec(pt, i) {
            added.push(wrap_var_item(it, j, WrapKind::Props, excluded));
        } else if let Some(j) = wraps_var_at_exec(dt, i) {
            added.push(wrap_var_item(it, j, WrapKind::Page, excluded));
        } else if wraps_assign_at_exec(pt, i) {
            added.push(wrap_assign_item(it, WrapKind::Props, excluded));
        } else if wraps_assign_at_exec(dt, i) {
            added.push(wrap_assign_item(it, WrapKind::Page, excluded));
        } else if wraps_fn_at_exec(pt, i) {
            added.push(wrap_fn_item(it, WrapKind::Props, excluded));
        } else if wraps_fn_at_exec(dt, i) {
            added.push(wrap_fn_item(it, WrapKind::Page, excluded));
        } else if wraps_default_expr_at_exec(dt, i) {
            added.push(wrap_default_expr_item(it));
        } else if wraps_default_decl_at_exec(dt, i) {
            added = default_decl_items(it);
        } else {
            added.push(it);
        }
        let ghost added_v = added@;
        proof {
            assert(added_v.len() == repl_len_at(orig, pt, dt, i as int));
            assert(repl_ok(orig, pt, dt, excluded@, i as int, added_v));
        }
        out.append(&mut added);
        proof {
            assert(out@ == out_pre + added_v);
            assert(out@.len() == out_pos(orig, pt, dt, i + 1int));
            assert forall|i2: int| 0 <= i2 < i + 1 implies repl_ok(
                orig,
                pt,
                dt,
                excluded@,
                i2,
                #[trigger] out@.subrange(
                    out_pos(orig, pt, dt, i2) as int,
                    out_pos(orig, pt, dt, i2) + repl_len_at(orig, pt, dt, i2) as int,
                ),
            ) by {
                let a = out_pos(orig, pt, dt, i2) as int;
                let b = out_pos(orig, pt, dt, i2) + repl_len_at(orig, pt, dt, i2) as int;
                if i2 < i {
                    lemma_out_pos_mono(orig, pt, dt, i2 + 1, i as int);
                    assert(b <= out_pre.len());
                    assert(out@.subrange(a, b) =~= out_pre.subrange(a, b));
                } else {
                    assert(a == out_pre.len() as int);
                    assert(out@.subrange(a, b) =~= added_v);
                }
            }
        }
        i = i + 1;
    }
    proof {
        assert(i == orig.len());
    }
    out
}


// The page engine's entry point.


/// Was a target found at all?  A skipped target counts as found: it
/// satisfies the pairing rule without being rewritten.
pub open spec fn target_found(t: Target) -> bool {
    !(t is NotFound)
}

/// Will the target actually be rewritten, so that its adapter import is
/// owed?
pub open spec fn target_wraps(t: Target) -> bool {
    match t {
        Target::NotFound => false,
        Target::Skip => false,
        _ => true,
    }
}

/// The prepended adapter imports: props, then init-props, then page, each
/// conditionally included, followed by the rewritten items.
pub open spec fn prepend_rel(
    core: Seq<Item>,
    pu: bool,
    iu: bool,
    gu: bool,
    r: Seq<Item>,
) -> bool {
    let np: int = if pu {
        1
    } else {
        0
    };
    let ni: int = if iu {
        1
    } else {
        0
    };
    let ng: int = if gu {
        1
    } else {
        0
    };
    &&& r.len() == core.len() + np + ni + ng
    &&& pu ==> crate::utils::is_superjson_import(r[0], names::props_export_name())
    &&& iu ==> crate::utils::is_superjson_import(r[np], names::init_props_export_name())
    &&& gu ==> crate::utils::is_superjson_import(r[np + ni], names::page_export_name())
    &&& r.skip(np + ni + ng) == core
}

/// Prepend the owed adapter imports.
fn prepend_imports(core: Vec<Item>, pu: bool, iu: bool, gu: bool) -> (r: Vec<Item>)
    ensures
        prepend_rel(core@, pu, iu, gu, r@),
{
    let mut r: Vec<Item> = Vec::new();
    if pu {
        r.push(crate::utils::superjson_import_decl(&names::props_export_str()));
    }
    if iu {
        r.push(crate::utils::superjson_import_decl(&names::init_props_export_str()));
    }
    if gu {
        r.push(crate::utils::superjson_import_decl(&names::page_export_str()));
    }
    let ghost head = r@;
    let mut core = core;
    let ghost core_v = core@;
    r.append(&mut core);
    proof {
        assert(r@ == head + core_v);
        assert(r@.skip(head.len() as int) =~= core_v);
    }
    r
}

/// Does item `i` collide between the two targets, executably?
fn touches_exec(t: Target, i: usize) -> (r: bool)
    ensures
        r == touches(t, i as int),
{
    match t {
        Target::NotFound => false,
        Target::Skip => false,
        Target::ExportFn { item } => item == i,
        Target::ExportVar { item, .. } => item == i,
        Target::DefaultExpr { item } => item == i,
        Target::DefaultDecl { item } => item == i,
        Target::LocalSpec { item, site, .. } => match site {
            Site::ImportSite { item: l, .. } => item == i || l == i,
            Site::Assign { item: l } => l == i,
            Site::FnSite { item: l } => l == i,
            Site::VarSite { item: l, .. } => l == i,
        },
        Target::SourceSpec { item, .. } => item == i,
    }
}

/// The up-to-two items a target rewrites.
fn touched_items(t: Target) -> (r: (Option<usize>, Option<usize>))
    ensures
        r.0 matches Some(a) ==> touches(t, a as int),
        r.1 matches Some(b) ==> touches(t, b as int),
        forall|i: int|
            #[trigger] touches(t, i) ==> (r.0 matches Some(a) && i == a) || (r.1 matches Some(b)
                && i == b),
{
    match t {
        Target::NotFound => (None, None),
        Target::Skip => (None, None),
        Target::ExportFn { item } => (Some(item), None),
        Target::ExportVar { item, .. } => (Some(item), None),
        Target::DefaultExpr { item } => (Some(item), None),
        Target::DefaultDecl { item } => (Some(item), None),
        Target::LocalSpec { item, site, .. } => match site {
            Site::ImportSite { item: l, .. } => (Some(item), Some(l)),
            Site::Assign { item: l } => (Some(l), None),
            Site::FnSite { item: l } => (Some(l), None),
            Site::VarSite { item: l, .. } => (Some(l), None),
        },
        Target::SourceSpec { item, .. } => (Some(item), None),
    }
}

/// Do the two targets rewrite a common item?
fn conflict_exec(pt: Target, dt: Target) -> (r: bool)
    ensures
        r == conflict(pt, dt),
{
    let (a, b) = touched_items(pt);
    let hit_a = match a {
        Some(ai) => touches_exec(dt, ai),
        None => false,
    };
    let hit_b = match b {
        Some(bi) => touches_exec(dt, bi),
        None => false,
    };
    let r = hit_a || hit_b;
    proof {
        if r {
            if hit_a {
                let ai = a->Some_0;
                assert(touches(pt, ai as int) && touches(dt, ai as int));
            } else {
                let bi = b->Some_0;
                assert(touches(pt, bi as int) && touches(dt, bi as int));
            }
        } else {
            assert forall|i: int| !(#[trigger] touches(pt, i) && touches(dt, i)) by {
                if touches(pt, i) {
                    assert((a matches Some(ai) && i == ai) || (b matches Some(bi) && i == bi));
                }
            }
        }
    }
    r
}

/// How the page engine leaves the module, given the init pass's output
/// `mid`, the two position records and whether a class member was wrapped.
/// Without a default export, or on a collision of the two targets, no export
/// is wrapped and only the init pass's work (and its import) remains; with
/// neither a data-fetch export nor a wrapped member, the module is untouched.
pub open spec fn transform_branch(
    mid: Seq<Item>,
    pt: Target,
    dt: Target,
    excl: Seq<String>,
    used: bool,
    r: Seq<Item>,
) -> bool {
    if !target_found(dt) {
        prepend_rel(mid, false, used, false, r)
    } else if !target_found(pt) && !used {
        r == mid
    } else if conflict(pt, dt) {
        prepend_rel(mid, false, used, false, r)
    } else {
        exists|core: Seq<Item>|
            #[trigger] rewritten_rel(mid, pt, dt, excl, core) && prepend_rel(
                core,
                target_wraps(pt),
                used,
                target_wraps(dt),
                r,
            )
    }
}

/// The page engine's full contract: the class-member pass runs first, the
/// locator's two position records are taken on its output, and the rewriter
/// and import prepending follow the branch rules.
pub open spec fn transform_rel(items: Seq<Item>, excl: Seq<String>, r: Seq<Item>) -> bool {
    exists|mid: Seq<Item>, pt: Target, dt: Target|
        #![trigger init_pass_rel(items, excl, mid), props_target_ok(mid, pt), default_target_ok(mid, dt)]
        {
            &&& init_pass_rel(items, excl, mid)
            &&& props_target_ok(mid, pt)
            &&& default_target_ok(mid, dt)
            &&& transform_branch(mid, pt, dt, excl, has_bare_init_any(items), r)
        }
}

/// No item of the module is a default-export shape.
pub open spec fn no_default_match(items: Seq<Item>) -> bool {
    forall|i: int| 0 <= i < items.len() ==> !default_fwd_match(#[trigger] items[i])
}

/// No item of the module is a data-fetch export shape.
pub open spec fn no_props_match(items: Seq<Item>) -> bool {
    forall|i: int| 0 <= i < items.len() ==> !props_fwd_match(#[trigger] items[i])
}

/// A found default target means some item is a default-export shape.
proof fn lemma_found_default_match(mid: Seq<Item>, dt: Target)
    requires
        default_target_ok(mid, dt),
        target_found(dt),
    ensures
        !no_default_match(mid),
{
    match dt {
        Target::NotFound => {
            assert(false);
        },
        Target::Skip => {
            let i = choose|i: int| #[trigger] first_default_at(mid, i) && default_skip_at(mid, i);
            assert(default_fwd_match(mid[i]));
        },
        Target::DefaultExpr { item } => {
            assert(default_fwd_match(mid[item as int]));
        },
        Target::DefaultDecl { item } => {
            assert(default_fwd_match(mid[item as int]));
        },
        Target::LocalSpec { item, .. } => {
            assert(default_fwd_match(mid[item as int]));
        },
        Target::SourceSpec { item, .. } => {
            assert(default_fwd_match(mid[item as int]));
        },
        Target::ExportFn { .. } => {
            assert(false);
        },
        Target::ExportVar { .. } => {
            assert(false);
        },
    }
}

/// A found data-fetch target means some item is a data-fetch export shape.
proof fn lemma_found_props_match(mid: Seq<Item>, pt: Target)
    requires
        props_target_ok(mid, pt),
        target_found(pt),
    ensures
        !no_props_match(mid),
{
    match pt {
        Target::NotFound => {
            assert(false);
        },
        Target::Skip => {
            let i = choose|i: int| #[trigger] first_props_at(mid, i) && props_skip_at(mid, i);
            assert(props_fwd_match(mid[i]));
        },
        Target::ExportFn { item } => {
            assert(props_fwd_match(mid[item as int]));
        },
        Target::ExportVar { item, .. } => {
            assert(props_fwd_match(mid[item as int]));
        },
        Target::LocalSpec { item, .. } => {
            assert(props_fwd_match(mid[item as int]));
        },
        Target::SourceSpec { item, .. } => {
            assert(props_fwd_match(mid[item as int]));
        },
        Target::DefaultExpr { .. } => {
            assert(false);
        },
        Target::DefaultDecl { .. } => {
            assert(false);
        },
    }
}

/// The page engine.  The module is rewritten only when both the data-fetch
/// export (or a wrapped class member standing in for it) and the default
/// page export are found; a module offering only one of the two is returned
/// unchanged but for the orthogonal class-member pass.  A settled module is
/// returned untouched, and over a module whose exports are all inline the
/// output is itself settled, so running the engine twice gives what one run
/// gives.
pub fn transform_page(items: Vec<Item>, config: &Config) -> (r: Vec<Item>)
    ensures
        transform_rel(items@, config.excluded@, r@),
        no_default_match(items@) && !has_bare_init_any(items@) ==> r@ == items@,
        no_props_match(items@) && !has_bare_init_any(items@) ==> r@ == items@,
        page_stable(items@) ==> r@ == items@,
        module_settled(items@) ==> r@ == items@,
        no_named_exports(items@) ==> module_settled(r@),
{
    let ghost orig = items@;
    let mut items = items;
    let used = crate::initprops::wrap_init_members(&mut items, &config.excluded);
    let ghost mid = items@;
    let pt = locate_props(&items);
    let dt = locate_default(&items);

    let dt_found = match dt {
        Target::NotFound => false,
        _ => true,
    };
    if !dt_found {
        let r = prepend_imports(items, false, used, false);
        proof {
            assert(init_pass_rel(orig, config.excluded@, mid));
            assert(transform_branch(mid, pt, dt, config.excluded@, used, r@));
            if !has_bare_init_any(orig) {
                assert(mid == orig);
                assert(r@.skip(0) =~= r@);
                assert(r@ == mid);
            }
            if no_named_exports(orig) {
                lemma_init_pass_no_named(orig, config.excluded@, mid);
                lemma_init_pass_no_bare(orig, config.excluded@, mid);
                lemma_default_cases(mid, dt);
                let ni: int = if used {
                    1
                } else {
                    0
                };
                assert forall|y: int| 0 <= y < mid.len() implies #[trigger] r@[ni + y]
                    == mid[y] by {
                    assert(r@.skip(ni)[y] == r@[ni + y]);
                }
                assert forall|x: int|
                    0 <= x < r@.len() implies !((#[trigger] r@[x]) matches Item::ExportNamed(_))
                        && !item_has_bare_init(r@[x]) && !default_fwd_match(r@[x]) by {
                    if used && x == 0 {
                        assert(crate::utils::is_superjson_import(
                            r@[0],
                            names::init_props_export_name(),
                        ));
                    } else {
                        assert(r@[x] == mid[x - ni]);
                    }
                }
                lemma_no_default_settled(r@);
            }
        }
        return r;
    }
    let pt_found = match pt {
        Target::NotFound => false,
        _ => true,
    };
    if !pt_found && !used {
        proof {
            assert(init_pass_rel(orig, config.excluded@, mid));
            assert(transform_branch(mid, pt, dt, config.excluded@, used, items@));
            assert(mid == orig);
            if no_named_exports(orig) {
                lemma_init_pass_no_bare(orig, config.excluded@, mid);
                lemma_props_cases(mid, pt);
                lemma_no_props_settled(mid);
            }
        }
        return items;
    }
    if conflict_exec(pt, dt) {
        let r = prepend_imports(items, false, used, false);
        proof {
            assert(init_pass_rel(orig, config.excluded@, mid));
            assert(transform_branch(mid, pt, dt, config.excluded@, used, r@));
            if !has_bare_init_any(orig) {
                assert(mid == orig);
                assert(r@.skip(0) =~= r@);
                assert(r@ == mid);
            }
            if page_stable(orig) {
                assert(props_target_ok(orig, pt));
                assert(!target_wraps(pt));
                assert(!conflict(pt, dt));
                assert(false);
            }
            if no_named_exports(orig) {
                lemma_init_pass_no_named(orig, config.excluded@, mid);
                lemma_props_cases(mid, pt);
                lemma_default_cases(mid, dt);
                let iw = choose|i: int| #[trigger] touches(pt, i) && touches(dt, i);
                assert(mid[iw] matches Item::ExportDecl(_)) by {
                    match pt {
                        Target::Skip => {
                            assert(!touches(pt, iw));
                        },
                        Target::NotFound => {
                            assert(!touches(pt, iw));
                        },
                        _ => {},
                    }
                }
                assert(!(mid[iw] matches Item::ExportDecl(_))) by {
                    match dt {
                        Target::Skip => {
                            assert(!touches(dt, iw));
                        },
                        Target::NotFound => {
                            assert(!touches(dt, iw));
                        },
                        _ => {},
                    }
                }
                assert(false);
            }
        }
        return r;
    }
    let pu = match pt {
        Target::NotFound => false,
        Target::Skip => false,
        _ => true,
    };
    let gu = match dt {
        Target::NotFound => false,
        Target::Skip => false,
        _ => true,
    };
    let core = rewrite_items(items, pt, dt, &config.excluded);
    let ghost core_v = core@;
    let r = prepend_imports(core, pu, used, gu);
    proof {
        assert(init_pass_rel(orig, config.excluded@, mid));
        assert(rewritten_rel(mid, pt, dt, config.excluded@, core_v));
        assert(transform_branch(mid, pt, dt, config.excluded@, used, r@));
        if !has_bare_init_any(orig) {
            assert(mid == orig);
            if no_default_match(orig) {
                lemma_found_default_match(mid, dt);
            }
            if no_props_match(orig) {
                lemma_found_props_match(mid, pt);
            }
        }
        if no_named_exports(orig) {
            lemma_init_pass_no_named(orig, config.excluded@, mid);
            lemma_init_pass_no_bare(orig, config.excluded@, mid);
            assert(pu == target_wraps(pt));
            assert(gu == target_wraps(dt));
            lemma_rewrite_output_settled(mid, pt, dt, config.excluded@, core_v, r@, used);
        }
        if page_stable(orig) || module_settled(orig) {
            assert(mid == orig);
            assert(props_target_ok(orig, pt));
            assert(default_target_ok(orig, dt));
            assert(!target_wraps(pt));
            assert(!target_wraps(dt));
            lemma_rewrite_noop(mid, pt, dt, config.excluded@, core_v);
            assert(!pu);
            assert(!gu);
            assert(r@.skip(0) =~= r@);
            assert(r@ == items@);
        }
    }
    r
}


// The idempotence protection: a module already in the target shape is left
// untouched.


/// Nothing in the module would be wrapped: every position record the two
/// locators could report is `NotFound` or `Skip`, and no class member is
/// bare.  The engine's own output of the common inline shapes satisfies
/// this, which is what protects re-exported chains from double wrapping.
pub open spec fn page_stable(items: Seq<Item>) -> bool {
    &&& forall|t: Target| #[trigger] props_target_ok(items, t) ==> !target_wraps(t)
    &&& forall|t: Target| #[trigger] default_target_ok(items, t) ==> !target_wraps(t)
    &&& !has_bare_init_any(items)
}

/// A module the engine leaves untouched: no class member is bare, and
/// whatever the two locators report either fails the pairing rule, collides,
/// or wraps nothing.  Every output of the engine whose rewrites used only
/// inline shapes satisfies this, which is what makes a second run the
/// identity.
pub open spec fn module_settled(items: Seq<Item>) -> bool {
    &&& !has_bare_init_any(items)
    &&& forall|pt: Target, dt: Target|
        #![trigger props_target_ok(items, pt), default_target_ok(items, dt)]
        props_target_ok(items, pt) && default_target_ok(items, dt) ==> {
            ||| !target_found(dt)
            ||| !target_found(pt)
            ||| conflict(pt, dt)
            ||| (!target_wraps(pt) && !target_wraps(dt))
        }
}

/// With two non-wrapping records every replacement starts at its own index.
proof fn lemma_out_pos_id(items: Seq<Item>, pt: Target, dt: Target, i: int)
    requires
        !target_wraps(pt),
        !target_wraps(dt),
        0 <= i <= items.len(),
    ensures
        out_pos(items, pt, dt, i) == i,
    decreases i,
{
    if i > 0 {
        lemma_out_pos_id(items, pt, dt, i - 1);
        assert(repl_len_at(items, pt, dt, i - 1) == 1);
    }
}

/// The rewriter under two non-wrapping records is the identity.
proof fn lemma_rewrite_noop(
    items: Seq<Item>,
    pt: Target,
    dt: Target,
    excl: Seq<String>,
    out: Seq<Item>,
)
    requires
        rewritten_rel(items, pt, dt, excl, out),
        !target_wraps(pt),
        !target_wraps(dt),
    ensures
        out == items,
{
    lemma_out_pos_id(items, pt, dt, items.len() as int);
    assert forall|i: int| 0 <= i < items.len() implies out[i] == items[i] by {
        lemma_out_pos_id(items, pt, dt, i);
        assert(repl_len_at(items, pt, dt, i) == 1);
        assert(repl_ok(
            items,
            pt,
            dt,
            excl,
            i,
            out.subrange(
                out_pos(items, pt, dt, i) as int,
                out_pos(items, pt, dt, i) + repl_len_at(items, pt, dt, i) as int,
            ),
        ));
        assert(out.subrange(i, i + 1)[0] == out[i]);
    }
    assert(out =~= items);
}


// The idempotence law for modules whose exports are all inline: the engine's
// own output is settled, so a second run is the identity.


/// No item of the module is a named-export statement.  Under this
/// restriction the locators never resolve references or skip re-exports:
/// every target is an inline declaration.
pub open spec fn no_named_exports(items: Seq<Item>) -> bool {
    forall|i: int| 0 <= i < items.len() ==> !((#[trigger] items[i]) matches Item::ExportNamed(_))
}

/// The first data-fetch declarator of the exported declaration carries the
/// props adapter already.
pub open spec fn props_wrapped_shape(it: Item) -> bool {
    exists|j: int|
        #[trigger] export_var_props_at(it, j) && item_declarator_wrapped(it, j, WrapKind::Props)
}

/// What a data-fetch record can be over a module without named exports.
proof fn lemma_props_cases(items: Seq<Item>, pt: Target)
    requires
        no_named_exports(items),
        props_target_ok(items, pt),
    ensures
        match pt {
            Target::NotFound => forall|i: int|
                0 <= i < items.len() ==> !props_fwd_match(#[trigger] items[i]),
            Target::Skip => exists|i: int|
                #[trigger] first_props_at(items, i) && props_wrapped_shape(items[i]),
            Target::ExportFn { .. } => true,
            Target::ExportVar { .. } => true,
            _ => false,
        },
{
    match pt {
        Target::NotFound => {
            if !(forall|i: int| 0 <= i < items.len() ==> !props_fwd_match(#[trigger] items[i])) {
                let i = choose|i: int|
                    #[trigger] first_props_at(items, i) && props_unresolvable_at(items, i);
                let k = choose|k: int| #[trigger] named_props_spec_at(items[i], k);
                assert(items[i] matches Item::ExportNamed(_));
                assert(false);
            }
        },
        Target::Skip => {
            let i = choose|i: int| #[trigger] first_props_at(items, i) && props_skip_at(items, i);
            if !props_wrapped_shape(items[i]) {
                let k = choose|k: int| #[trigger] named_props_spec_at(items[i], k);
                assert(items[i] matches Item::ExportNamed(_));
                assert(false);
            }
        },
        Target::LocalSpec { item, spec, .. } => {
            assert(items[item as int] matches Item::ExportNamed(_));
            assert(false);
        },
        Target::SourceSpec { item, spec } => {
            assert(items[item as int] matches Item::ExportNamed(_));
            assert(false);
        },
        _ => {},
    }
}

/// The default-exported expression carries the page adapter already.
pub open spec fn default_wrapped_shape(it: Item) -> bool {
    it matches Item::ExportDefaultExpr(e) && is_adapter_callee(e, names::page_local_name())
}

/// What a default-export record can be over a module without named exports.
proof fn lemma_default_cases(items: Seq<Item>, dt: Target)
    requires
        no_named_exports(items),
        default_target_ok(items, dt),
    ensures
        match dt {
            Target::NotFound => forall|i: int|
                0 <= i < items.len() ==> !default_fwd_match(#[trigger] items[i]),
            Target::Skip => exists|i: int|
                #[trigger] first_default_at(items, i) && default_wrapped_shape(items[i]),
            Target::DefaultExpr { .. } => true,
            Target::DefaultDecl { .. } => true,
            _ => false,
        },
{
    match dt {
        Target::NotFound => {
            if !(forall|i: int| 0 <= i < items.len() ==> !default_fwd_match(#[trigger] items[i])) {
                let i = choose|i: int|
                    #[trigger] first_default_at(items, i) && default_unresolvable_at(items, i);
                let k = choose|k: int| #[trigger] named_default_spec_at(items[i], k);
                assert(items[i] matches Item::ExportNamed(_));
                assert(false);
            }
        },
        Target::Skip => {
            let i = choose|i: int|
                #[trigger] first_default_at(items, i) && default_skip_at(items, i);
            if !default_wrapped_shape(items[i]) {
                let k = choose|k: int| #[trigger] named_default_spec_at(items[i], k);
                assert(items[i] matches Item::ExportNamed(_));
                assert(false);
            }
        },
        Target::LocalSpec { item, spec, .. } => {
            assert(items[item as int] matches Item::ExportNamed(_));
            assert(false);
        },
        Target::SourceSpec { item, spec } => {
            assert(items[item as int] matches Item::ExportNamed(_));
            assert(false);
        },
        _ => {},
    }
}

/// Every position of the rewritten list falls inside some item's
/// replacement.
proof fn lemma_out_cover(items: Seq<Item>, pt: Target, dt: Target, n: int, x: int)
    requires
        0 <= n <= items.len(),
        0 <= x < out_pos(items, pt, dt, n),
    ensures
        exists|i: int|
            {
                &&& 0 <= i < n
                &&& #[trigger] out_pos(items, pt, dt, i) <= x
                &&& x < out_pos(items, pt, dt, i) + repl_len_at(items, pt, dt, i)
            },
    decreases n,
{
    if n > 0 {
        if x >= out_pos(items, pt, dt, n - 1) {
            assert(out_pos(items, pt, dt, n - 1) <= x < out_pos(items, pt, dt, n - 1)
                + repl_len_at(items, pt, dt, n - 1));
        } else {
            lemma_out_cover(items, pt, dt, n - 1, x);
        }
    }
}


// How the class-member pass relates to the laws.


/// The class-member pass leaves no bare member behind.
proof fn lemma_init_pass_no_bare(items: Seq<Item>, excl: Seq<String>, mid: Seq<Item>)
    requires
        init_pass_rel(items, excl, mid),
    ensures
        !has_bare_init_any(mid),
{
    if !has_bare_init_any(items) {
        assert(mid == items);
    } else {
        assert forall|i: int| 0 <= i < mid.len() implies !item_has_bare_init(
            #[trigger] mid[i],
        ) by {
            assert(crate::initprops::item_init_rel(items[i], mid[i], excl));
            if crate::initprops::item_has_bare_init(items[i]) {
                lemma_members_no_bare(items[i], mid[i], excl);
            } else {
                assert(mid[i] == items[i]);
            }
        }
    }
}

/// Wrapped members leave no bare member behind.
proof fn lemma_members_rel_no_bare(
    pre: Seq<crate::ast::ClassMember>,
    post: Seq<crate::ast::ClassMember>,
    excl: Seq<String>,
)
    requires
        crate::initprops::members_init_rel(pre, post, excl),
    ensures
        !crate::initprops::members_have_bare(post),
{
    assert forall|j: int| 0 <= j < post.len() implies !crate::initprops::member_is_bare_init(
        #[trigger] post[j],
    ) by {
        assert(crate::initprops::member_init_rel(pre[j], post[j], excl));
    }
}

/// A treated value leaves no bare class behind.
proof fn lemma_expr_rel_no_bare(e0: Expr, e1: Expr, excl: Seq<String>)
    requires
        crate::initprops::expr_init_rel(e0, e1, excl),
    ensures
        !crate::initprops::expr_has_bare_init(e1),
{
    if crate::initprops::expr_has_bare_init(e0) {
        lemma_members_rel_no_bare(e0->Class_0.members@, e1->Class_0.members@, excl);
    }
}

/// A treated declaration leaves no bare class behind.
proof fn lemma_decl_rel_no_bare(d0: Decl, d1: Decl, excl: Seq<String>)
    requires
        crate::initprops::decl_init_rel(d0, d1, excl),
    ensures
        !crate::initprops::decl_has_bare(d1),
{
    match d0 {
        Decl::Class(cd0) => {
            lemma_members_rel_no_bare(cd0.members@, d1->Class_0.members@, excl);
        },
        Decl::Var(vd0) => {
            let vd1 = d1->Var_0;
            assert forall|j: int|
                0 <= j < vd1.decls@.len() implies !crate::initprops::declarator_has_bare(
                #[trigger] vd1.decls@[j],
            ) by {
                assert(crate::initprops::declarator_init_rel(vd0.decls@[j], vd1.decls@[j], excl));
                match vd0.decls@[j].init {
                    Some(e0) => {
                        lemma_expr_rel_no_bare(e0, vd1.decls@[j].init->Some_0, excl);
                    },
                    None => {},
                }
            }
            assert(!crate::initprops::declarators_have_bare(vd1.decls@));
        },
        _ => {
            assert(false);
        },
    }
}

/// A rewritten item has no bare class left anywhere the pass reaches.
proof fn lemma_members_no_bare(pre: Item, post: Item, excl: Seq<String>)
    requires
        crate::initprops::item_has_bare_init(pre),
        crate::initprops::item_init_rel(pre, post, excl),
    ensures
        !crate::initprops::item_has_bare_init(post),
{
    match pre {
        Item::Stmt(s0) => match s0 {
            Stmt::Decl(d0) => {
                lemma_decl_rel_no_bare(d0, post->Stmt_0->Decl_0, excl);
            },
            Stmt::Assign(a0) => {
                lemma_expr_rel_no_bare(a0.value, post->Stmt_0->Assign_0.value, excl);
            },
            _ => {
                assert(false);
            },
        },
        Item::ExportDecl(d0) => {
            lemma_decl_rel_no_bare(d0, post->ExportDecl_0, excl);
        },
        Item::ExportDefaultDecl(dd0) => {
            lemma_members_rel_no_bare(
                dd0->Class_0.members@,
                post->ExportDefaultDecl_0->Class_0.members@,
                excl,
            );
        },
        Item::ExportDefaultExpr(e0) => {
            lemma_expr_rel_no_bare(e0, post->ExportDefaultExpr_0, excl);
        },
        _ => {
            assert(false);
        },
    }
}

/// The class-member pass introduces no named export.
proof fn lemma_init_pass_no_named(items: Seq<Item>, excl: Seq<String>, mid: Seq<Item>)
    requires
        init_pass_rel(items, excl, mid),
        no_named_exports(items),
    ensures
        no_named_exports(mid),
{
    if !has_bare_init_any(items) {
        assert(mid == items);
    } else {
        assert forall|i: int|
            0 <= i < mid.len() implies !((#[trigger] mid[i]) matches Item::ExportNamed(_)) by {
            assert(crate::initprops::item_init_rel(items[i], mid[i], excl));
            if !crate::initprops::item_has_bare_init(items[i]) {
                assert(mid[i] == items[i]);
            }
        }
    }
}


// The engine's own output over an inline-shape module is settled.


/// The inline target shapes: found positions that are declarations, not
/// specifiers.
pub open spec fn inline_props_target(t: Target) -> bool {
    match t {
        Target::NotFound => true,
        Target::Skip => true,
        Target::ExportFn { .. } => true,
        Target::ExportVar { .. } => true,
        _ => false,
    }
}

pub open spec fn inline_default_target(t: Target) -> bool {
    match t {
        Target::NotFound => true,
        Target::Skip => true,
        Target::DefaultExpr { .. } => true,
        Target::DefaultDecl { .. } => true,
        _ => false,
    }
}

/// The item index an inline target rewrites, or a negative number.
pub open spec fn inline_item_of(t: Target) -> int {
    match t {
        Target::ExportFn { item } => item as int,
        Target::ExportVar { item, .. } => item as int,
        Target::DefaultExpr { item } => item as int,
        Target::DefaultDecl { item } => item as int,
        _ => -1,
    }
}

/// Under inline targets, every replacement keeps length one except the
/// split of a named default declaration.
proof fn lemma_inline_repl_len(mid: Seq<Item>, pt: Target, dt: Target, i: int)
    requires
        inline_props_target(pt),
        inline_default_target(dt),
        0 <= i < mid.len(),
    ensures
        repl_len_at(mid, pt, dt, i) == if wraps_default_decl_at(dt, i) {
            default_decl_len(mid[i])
        } else {
            1nat
        },
{
}


// What stands in each replacement of the core list, under inline targets.


/// Characterize one replacement: nothing gains a named export or a bare
/// member; below the props image no data-fetch match stands, and at it a
/// wrapped one; the default image carries its wrapped match last.
#[verifier::rlimit(100)]
#[verifier::spinoff_prover]
proof fn lemma_slice_shapes(
    mid: Seq<Item>,
    pt: Target,
    dt: Target,
    excl: Seq<String>,
    i: int,
    slice: Seq<Item>,
    p0: int,
    d0: int,
)
    requires
        no_named_exports(mid),
        !has_bare_init_any(mid),
        props_target_ok(mid, pt),
        default_target_ok(mid, dt),
        inline_props_target(pt),
        inline_default_target(dt),
        0 <= i < mid.len(),
        repl_ok(mid, pt, dt, excl, i, slice),
        slice.len() == repl_len_at(mid, pt, dt, i),
        match pt {
            Target::NotFound => p0 == mid.len(),
            Target::Skip => first_props_at(mid, p0) && props_wrapped_shape(mid[p0]),
            _ => p0 == inline_item_of(pt) && first_props_at(mid, p0),
        },
        match dt {
            Target::NotFound => d0 == mid.len(),
            Target::Skip => first_default_at(mid, d0) && default_wrapped_shape(mid[d0]),
            _ => d0 == inline_item_of(dt) && first_default_at(mid, d0),
        },
        p0 != d0 || p0 == mid.len(),
    ensures
        forall|z: int| 0 <= z < slice.len() ==> !((#[trigger] slice[z]) matches Item::ExportNamed(_)),
        forall|z: int| 0 <= z < slice.len() ==> !item_has_bare_init(#[trigger] slice[z]),
        i < p0 ==> forall|z: int| 0 <= z < slice.len() ==> !props_fwd_match(#[trigger] slice[z]),
        i == p0 ==> slice.len() == 1 && props_fwd_match(slice[0]) && props_wrapped_shape(slice[0]),
        i < d0 ==> forall|z: int| 0 <= z < slice.len() ==> !default_fwd_match(#[trigger] slice[z]),
        i == d0 ==> {
            &&& default_fwd_match(slice[slice.len() - 1])
            &&& default_wrapped_shape(slice[slice.len() - 1])
            &&& forall|z: int| 0 <= z < slice.len() - 1 ==> !default_fwd_match(#[trigger] slice[z])
        },
{
    lemma_inline_repl_len(mid, pt, dt, i);
    let acts_props = i == p0 && (pt matches Target::ExportFn { .. } || pt matches
        Target::ExportVar { .. });
    let acts_default = i == d0 && (dt matches Target::DefaultExpr { .. } || dt matches
        Target::DefaultDecl { .. });
    if acts_props {
        match pt {
            Target::ExportFn { item } => {
                assert(wraps_fn_at(pt, i));
                assert(item_fn_wrapped(mid[i], slice[0], WrapKind::Props, excl));
                assert(export_var_props_at(slice[0], 0));
                assert(item_declarator_wrapped(slice[0], 0, WrapKind::Props));
                assert(props_wrapped_shape(slice[0]));
            },
            Target::ExportVar { item, decl } => {
                assert(wraps_var_at(pt, i) == Some(decl as int));
                assert(item_var_wrapped(mid[i], slice[0], decl as int, WrapKind::Props, excl));
                assert(export_var_props_at(slice[0], decl as int)) by {
                    assert(export_var_props_at(mid[i], decl as int));
                }
                assert(item_declarator_wrapped(slice[0], decl as int, WrapKind::Props));
                assert(props_wrapped_shape(slice[0]));
            },
            _ => {
                assert(false);
            },
        }
        assert(props_fwd_match(slice[0]));
    } else if acts_default {
        match dt {
            Target::DefaultExpr { item } => {
                assert(wraps_default_expr_at(dt, i));
                assert(slice.len() == 1);
                assert(default_wrapped_shape(slice[0]));
                assert(default_fwd_match(slice[0]));
            },
            Target::DefaultDecl { item } => {
                assert(wraps_default_decl_at(dt, i));
                assert(default_decl_out(mid[i], slice));
                assert(default_fwd_match(slice[slice.len() - 1]));
                assert(default_wrapped_shape(slice[slice.len() - 1]));
                if slice.len() == 2 {
                    assert(!default_fwd_match(slice[0]));
                    assert(!item_has_bare_init(slice[0])) by {
                        assert(!item_has_bare_init(mid[i]));
                    }
                }
            },
            _ => {
                assert(false);
            },
        }
    } else {
        assert(slice.len() == 1 && slice[0] == mid[i]);
        if i == p0 {
            assert(pt is Skip);
            assert(props_wrapped_shape(slice[0]));
            assert(props_fwd_match(slice[0])) by {
                let j = choose|j: int| #[trigger] export_var_props_at(mid[p0], j)
                    && item_declarator_wrapped(mid[p0], j, WrapKind::Props);
                assert(export_var_props(mid[p0]));
            }
        }
        if i == d0 {
            assert(dt is Skip);
            assert(default_wrapped_shape(slice[0]));
            assert(default_fwd_match(slice[0]));
        }
        if i < p0 {
            assert(!props_fwd_match(mid[i])) by {
                match pt {
                    Target::NotFound => {
                        lemma_props_cases(mid, pt);
                    },
                    _ => {},
                }
            }
        }
        if i < d0 {
            assert(!default_fwd_match(mid[i])) by {
                match dt {
                    Target::NotFound => {
                        lemma_default_cases(mid, dt);
                    },
                    _ => {},
                }
            }
        }
    }
}


// Position facts over the whole core list.


/// The choices of `p0` and `d0` handed through the output lemmas.
pub open spec fn props_anchor_ok(mid: Seq<Item>, pt: Target, p0: int) -> bool {
    match pt {
        Target::NotFound => p0 == mid.len(),
        Target::Skip => first_props_at(mid, p0) && props_wrapped_shape(mid[p0]),
        _ => p0 == inline_item_of(pt) && first_props_at(mid, p0),
    }
}

pub open spec fn default_anchor_ok(mid: Seq<Item>, dt: Target, d0: int) -> bool {
    match dt {
        Target::NotFound => d0 == mid.len(),
        Target::Skip => first_default_at(mid, d0) && default_wrapped_shape(mid[d0]),
        _ => d0 == inline_item_of(dt) && first_default_at(mid, d0),
    }
}

/// All hypotheses the core-list lemmas share.
pub open spec fn core_lemma_pre(
    mid: Seq<Item>,
    pt: Target,
    dt: Target,
    excl: Seq<String>,
    core: Seq<Item>,
    p0: int,
    d0: int,
) -> bool {
    &&& no_named_exports(mid)
    &&& !has_bare_init_any(mid)
    &&& props_target_ok(mid, pt)
    &&& default_target_ok(mid, dt)
    &&& inline_props_target(pt)
    &&& inline_default_target(dt)
    &&& rewritten_rel(mid, pt, dt, excl, core)
    &&& props_anchor_ok(mid, pt, p0)
    &&& default_anchor_ok(mid, dt, d0)
    &&& (p0 != d0 || p0 == mid.len())
}

/// What one core position can hold.
proof fn lemma_core_facts(
    mid: Seq<Item>,
    pt: Target,
    dt: Target,
    excl: Seq<String>,
    core: Seq<Item>,
    p0: int,
    d0: int,
    y: int,
)
    requires
        core_lemma_pre(mid, pt, dt, excl, core, p0, d0),
        0 <= y < core.len(),
    ensures
        !((#[trigger] core[y]) matches Item::ExportNamed(_)),
        !item_has_bare_init(core[y]),
        props_fwd_match(core[y]) ==> p0 < mid.len() && y >= out_pos(mid, pt, dt, p0),
        default_fwd_match(core[y]) ==> d0 < mid.len() && y >= out_pos(mid, pt, dt, d0)
            + repl_len_at(mid, pt, dt, d0) - 1,
{
    lemma_out_cover(mid, pt, dt, mid.len() as int, y);
    let iy = choose|i: int|
        {
            &&& 0 <= i < mid.len()
            &&& #[trigger] out_pos(mid, pt, dt, i) <= y
            &&& y < out_pos(mid, pt, dt, i) + repl_len_at(mid, pt, dt, i)
        };
    let posy = out_pos(mid, pt, dt, iy);
    assert(out_pos(mid, pt, dt, iy + 1) == posy + repl_len_at(mid, pt, dt, iy));
    lemma_out_pos_mono(mid, pt, dt, iy + 1, mid.len() as int);
    let slice = core.subrange(posy as int, posy + repl_len_at(mid, pt, dt, iy) as int);
    assert(repl_ok(mid, pt, dt, excl, iy, slice));
    lemma_slice_shapes(mid, pt, dt, excl, iy, slice, p0, d0);
    assert(core[y] == slice[y - posy]);
    if props_fwd_match(core[y]) {
        assert(iy >= p0);
        lemma_out_pos_mono(mid, pt, dt, p0, iy);
    }
    if default_fwd_match(core[y]) {
        assert(iy >= d0);
        if iy == d0 {
            assert(y - posy == slice.len() - 1);
        } else {
            lemma_out_pos_mono(mid, pt, dt, d0 + 1, iy);
            assert(out_pos(mid, pt, dt, d0 + 1) == out_pos(mid, pt, dt, d0) + repl_len_at(
                mid,
                pt,
                dt,
                d0,
            ));
        }
    }
}

/// The wrapped matches stand exactly at the targets' images.
proof fn lemma_core_images(
    mid: Seq<Item>,
    pt: Target,
    dt: Target,
    excl: Seq<String>,
    core: Seq<Item>,
    p0: int,
    d0: int,
)
    requires
        core_lemma_pre(mid, pt, dt, excl, core, p0, d0),
    ensures
        p0 < mid.len() ==> {
            &&& out_pos(mid, pt, dt, p0) < core.len()
            &&& props_fwd_match(core[out_pos(mid, pt, dt, p0) as int])
            &&& props_wrapped_shape(core[out_pos(mid, pt, dt, p0) as int])
        },
        d0 < mid.len() ==> {
            &&& out_pos(mid, pt, dt, d0) + repl_len_at(mid, pt, dt, d0) - 1 < core.len()
            &&& default_fwd_match(
                core[out_pos(mid, pt, dt, d0) + repl_len_at(mid, pt, dt, d0) - 1],
            )
            &&& default_wrapped_shape(
                core[out_pos(mid, pt, dt, d0) + repl_len_at(mid, pt, dt, d0) - 1],
            )
        },
{
    if p0 < mid.len() {
        let posp = out_pos(mid, pt, dt, p0);
        let slice = core.subrange(posp as int, posp + repl_len_at(mid, pt, dt, p0) as int);
        assert(repl_ok(mid, pt, dt, excl, p0, slice));
        lemma_out_pos_mono(mid, pt, dt, p0 + 1, mid.len() as int);
        assert(out_pos(mid, pt, dt, p0 + 1) == posp + repl_len_at(mid, pt, dt, p0));
        lemma_slice_shapes(mid, pt, dt, excl, p0, slice, p0, d0);
        assert(core[posp as int] == slice[0]);
    }
    if d0 < mid.len() {
        let posd = out_pos(mid, pt, dt, d0);
        let len_d = repl_len_at(mid, pt, dt, d0);
        let slice = core.subrange(posd as int, posd + len_d as int);
        assert(repl_ok(mid, pt, dt, excl, d0, slice));
        lemma_out_pos_mono(mid, pt, dt, d0 + 1, mid.len() as int);
        assert(out_pos(mid, pt, dt, d0 + 1) == posd + len_d);
        lemma_slice_shapes(mid, pt, dt, excl, d0, slice, p0, d0);
        assert(core[posd + len_d - 1] == slice[len_d - 1]);
    }
}


// The settledness of the engine's output over an inline-shape module.


/// Over a module without named exports, whatever the rewriter and the
/// import prepending produce is settled: a second run of the engine finds
/// both targets wrapped and leaves the output alone.
#[verifier::rlimit(100)]
#[verifier::spinoff_prover]
proof fn lemma_rewrite_output_settled(
    mid: Seq<Item>,
    pt: Target,
    dt: Target,
    excl: Seq<String>,
    core: Seq<Item>,
    r: Seq<Item>,
    used: bool,
)
    requires
        no_named_exports(mid),
        !has_bare_init_any(mid),
        props_target_ok(mid, pt),
        default_target_ok(mid, dt),
        rewritten_rel(mid, pt, dt, excl, core),
        prepend_rel(core, target_wraps(pt), used, target_wraps(dt), r),
    ensures
        module_settled(r),
{
    lemma_props_cases(mid, pt);
    lemma_default_cases(mid, dt);
    let n = mid.len() as int;
    let p0: int = match pt {
        Target::NotFound => n,
        Target::Skip => choose|i: int|
            #[trigger] first_props_at(mid, i) && props_wrapped_shape(mid[i]),
        _ => inline_item_of(pt),
    };
    let d0: int = match dt {
        Target::NotFound => n,
        Target::Skip => choose|i: int|
            #[trigger] first_default_at(mid, i) && default_wrapped_shape(mid[i]),
        _ => inline_item_of(dt),
    };
    assert(props_anchor_ok(mid, pt, p0));
    assert(default_anchor_ok(mid, dt, d0));
    if p0 < n && d0 < n {
        assert(p0 != d0) by {
            assert(mid[p0] matches Item::ExportDecl(_)) by {
                match pt {
                    Target::Skip => {
                        assert(props_wrapped_shape(mid[p0]));
                        let j = choose|j: int| #[trigger] export_var_props_at(mid[p0], j)
                            && item_declarator_wrapped(mid[p0], j, WrapKind::Props);
                    },
                    _ => {},
                }
            }
            assert(!(mid[d0] matches Item::ExportDecl(_)));
        }
    }
    assert(core_lemma_pre(mid, pt, dt, excl, core, p0, d0));

    let np: int = if target_wraps(pt) {
        1
    } else {
        0
    };
    let ni: int = if used {
        1
    } else {
        0
    };
    let ng: int = if target_wraps(dt) {
        1
    } else {
        0
    };
    let off = np + ni + ng;
    assert(r.len() == core.len() + off);
    assert forall|y: int| 0 <= y < core.len() implies #[trigger] r[off + y] == core[y] by {
        assert(r.skip(off)[y] == r[off + y]);
    }
    assert forall|x: int| 0 <= x < off implies (#[trigger] r[x]) matches Item::Import(_) by {
        if target_wraps(pt) && x == 0 {
            assert(crate::utils::is_superjson_import(r[0], names::props_export_name()));
        } else if used && x == np {
            assert(crate::utils::is_superjson_import(r[np], names::init_props_export_name()));
        } else {
            assert(target_wraps(dt) && x == np + ni);
            assert(crate::utils::is_superjson_import(r[np + ni], names::page_export_name()));
        }
    }

    assert forall|x: int|
        0 <= x < r.len() implies !((#[trigger] r[x]) matches Item::ExportNamed(_))
            && !item_has_bare_init(r[x]) by {
        if x >= off {
            lemma_core_facts(mid, pt, dt, excl, core, p0, d0, x - off);
        }
    }
    lemma_core_images(mid, pt, dt, excl, core, p0, d0);
    let px = off + out_pos(mid, pt, dt, p0);
    let dx = off + out_pos(mid, pt, dt, d0) + repl_len_at(mid, pt, dt, d0) - 1;
    assert forall|x: int| 0 <= x < r.len() && #[trigger] props_fwd_match(r[x]) implies p0 < n
        && x >= px && (x == px ==> props_wrapped_shape(r[x])) by {
        assert(x >= off);
        lemma_core_facts(mid, pt, dt, excl, core, p0, d0, x - off);
    }
    assert forall|x: int| 0 <= x < r.len() && #[trigger] default_fwd_match(r[x]) implies d0 < n
        && x >= dx && (x == dx ==> default_wrapped_shape(r[x])) by {
        assert(x >= off);
        lemma_core_facts(mid, pt, dt, excl, core, p0, d0, x - off);
    }

    assert forall|pt2: Target, dt2: Target|
        props_target_ok(r, pt2) && default_target_ok(r, dt2) implies !target_wraps(pt2)
            && !target_wraps(dt2) by {
        assert(no_named_exports(r));
        lemma_props_cases(r, pt2);
        lemma_default_cases(r, dt2);
        match pt2 {
            Target::ExportFn { item } => {
                assert(first_props_at(r, item as int));
                assert(props_fwd_match(r[item as int]));
                assert(item as int >= px);
                assert(props_fwd_match(r[px])) by {
                    assert(props_fwd_match(core[out_pos(mid, pt, dt, p0) as int]));
                }
                assert(item as int == px);
                assert(props_wrapped_shape(r[px]));
                let j = choose|j: int| #[trigger] export_var_props_at(r[px], j)
                    && item_declarator_wrapped(r[px], j, WrapKind::Props);
                assert(false);
            },
            Target::ExportVar { item, decl } => {
                assert(first_props_at(r, item as int));
                assert(props_fwd_match(r[item as int])) by {
                    assert(export_var_props(r[item as int]));
                }
                assert(props_fwd_match(r[px])) by {
                    assert(props_fwd_match(core[out_pos(mid, pt, dt, p0) as int]));
                }
                assert(item as int == px);
                assert(props_wrapped_shape(r[px]));
                let j = choose|j: int| #[trigger] export_var_props_at(r[px], j)
                    && item_declarator_wrapped(r[px], j, WrapKind::Props);
                assert(export_var_props_at(r[px], decl as int));
                assert(j == decl as int) by {
                    let di = decl as int;
                    if j < di {
                        assert(false);
                    }
                    if di < j {
                        assert(false);
                    }
                }
                assert(false);
            },
            _ => {},
        }
        match dt2 {
            Target::DefaultExpr { item } => {
                assert(first_default_at(r, item as int));
                assert(default_fwd_match(r[item as int]));
                assert(item as int >= dx);
                assert(default_fwd_match(r[dx])) by {
                    assert(default_fwd_match(
                        core[out_pos(mid, pt, dt, d0) + repl_len_at(mid, pt, dt, d0) - 1],
                    ));
                }
                assert(item as int == dx);
                assert(default_wrapped_shape(r[dx]));
                assert(false);
            },
            Target::DefaultDecl { item } => {
                assert(first_default_at(r, item as int));
                assert(default_fwd_match(r[item as int]));
                assert(default_fwd_match(r[dx])) by {
                    assert(default_fwd_match(
                        core[out_pos(mid, pt, dt, d0) + repl_len_at(mid, pt, dt, d0) - 1],
                    ));
                }
                assert(item as int == dx);
                assert(default_wrapped_shape(r[dx]));
                assert(false);
            },
            _ => {},
        }
    }
    assert(module_settled(r));
}


// Settledness of the engine's no-op outputs.


/// A module without any default-export shape is settled: the pairing rule
/// wraps nothing in it.
proof fn lemma_no_default_settled(r: Seq<Item>)
    requires
        !has_bare_init_any(r),
        no_named_exports(r),
        forall|x: int| 0 <= x < r.len() ==> !default_fwd_match(#[trigger] r[x]),
    ensures
        module_settled(r),
{
    assert forall|pt2: Target, dt2: Target|
        props_target_ok(r, pt2) && default_target_ok(r, dt2) implies !target_found(dt2) by {
        lemma_default_cases(r, dt2);
        match dt2 {
            Target::Skip => {
                let i = choose|i: int|
                    #[trigger] first_default_at(r, i) && default_wrapped_shape(r[i]);
                assert(false);
            },
            Target::DefaultExpr { item } => {
                assert(default_fwd_match(r[item as int]));
                assert(false);
            },
            Target::DefaultDecl { item } => {
                assert(default_fwd_match(r[item as int]));
                assert(false);
            },
            _ => {},
        }
    }
}

/// A module without any data-fetch shape is settled the same way.
proof fn lemma_no_props_settled(r: Seq<Item>)
    requires
        !has_bare_init_any(r),
        no_named_exports(r),
        forall|x: int| 0 <= x < r.len() ==> !props_fwd_match(#[trigger] r[x]),
    ensures
        module_settled(r),
{
    assert forall|pt2: Target, dt2: Target|
        props_target_ok(r, pt2) && default_target_ok(r, dt2) implies !target_found(pt2) by {
        lemma_props_cases(r, pt2);
        match pt2 {
            Target::Skip => {
                let i = choose|i: int|
                    #[trigger] first_props_at(r, i) && props_wrapped_shape(r[i]);
                assert(props_fwd_match(r[i])) by {
                    let j = choose|j: int| #[trigger] export_var_props_at(r[i], j)
                        && item_declarator_wrapped(r[i], j, WrapKind::Props);
                }
                assert(false);
            },
            Target::ExportFn { item } => {
                assert(props_fwd_match(r[item as int]));
                assert(false);
            },
            Target::ExportVar { item, .. } => {
                assert(props_fwd_match(r[item as int]));
                assert(false);
            },
            _ => {},
        }
    }
}

} // verus!
