//! The class-member handling: wherever a class carries a property or method
//! literally named `getInitialProps`, the member's value is wrapped with the
//! init-props adapter.  This pass runs regardless of what the locator finds
//! and is orthogonal to its skip and pairing rules.  It reaches the classes
//! that stand as items — plain, exported or default-exported declarations —
//! and the class expressions standing directly as a declarator's
//! initializer, an assignment's right-hand side, or a default-exported
//! expression; a class buried deeper inside an expression crosses the model
//! as opaque and is outside its reach.

use vstd::prelude::*;
use crate::ast::{
    AssignStmt, ClassMember, ClassProp, Decl, DefaultDecl, Expr, FnExpr, Item, MemberKey, Stmt,
    VarDeclarator,
};
use crate::names;
use crate::utils::{excluded_arg, is_adapter_callee, is_excluded_array, Wrapper};

verus! {

/// Is `v` the call `_withSuperJSONInitProps(orig, [excluded...])`?
pub open spec fn is_init_call(v: Expr, orig: Expr, excl: Seq<String>) -> bool {
    &&& v matches Expr::Call(c)
    &&& crate::utils::is_ident_expr(*c.callee, names::init_props_local_name())
    &&& c.args@.len() == 2
    &&& !c.args@[0].spread
    &&& c.args@[0].expr == orig
    &&& is_excluded_array(c.args@[1], excl)
}

/// A class member the pass will rewrite: a method named `getInitialProps`,
/// or such a property whose value does not already carry the init-props
/// adapter call.
pub open spec fn member_is_bare_init(m: ClassMember) -> bool {
    match m {
        ClassMember::Method(mm) => mm.key matches MemberKey::Ident(k) && k@
            == names::init_props_name(),
        ClassMember::Prop(p) => {
            &&& p.key matches MemberKey::Ident(k)
            &&& k@ == names::init_props_name()
            &&& p.value matches Some(v)
            &&& !is_adapter_callee(v, names::init_props_local_name())
        },
        ClassMember::Opaque(_) => false,
    }
}

/// How one member leaves the pass: a method is normalized into a property
/// holding the wrapped anonymous function; a bare property value is wrapped;
/// everything else is untouched.
pub open spec fn member_init_rel(pre: ClassMember, post: ClassMember, excl: Seq<String>) -> bool {
    if member_is_bare_init(pre) {
        match pre {
            ClassMember::Method(mm) => {
                &&& post matches ClassMember::Prop(p)
                &&& p.key == mm.key
                &&& p.is_static == mm.is_static
                &&& p.value matches Some(v)
                &&& is_init_call(v, Expr::Func(FnExpr { ident: None, function: mm.function }), excl)
            },
            ClassMember::Prop(p0) => {
                &&& post matches ClassMember::Prop(p1)
                &&& p1.key == p0.key
                &&& p1.is_static == p0.is_static
                &&& p0.value matches Some(v0)
                &&& p1.value matches Some(v1)
                &&& is_init_call(v1, v0, excl)
            },
            ClassMember::Opaque(_) => false,
        }
    } else {
        post == pre
    }
}

pub open spec fn members_init_rel(
    pre: Seq<ClassMember>,
    post: Seq<ClassMember>,
    excl: Seq<String>,
) -> bool {
    &&& post.len() == pre.len()
    &&& forall|j: int| 0 <= j < pre.len() ==> member_init_rel(pre[j], #[trigger] post[j], excl)
}

/// The class members an item carries at top level, if any.
pub open spec fn item_class_members(it: Item) -> Option<Seq<ClassMember>> {
    match it {
        Item::Stmt(s) => match s {
            Stmt::Decl(d) => match d {
                Decl::Class(cd) => Some(cd.members@),
                _ => None,
            },
            _ => None,
        },
        Item::ExportDecl(d) => match d {
            Decl::Class(cd) => Some(cd.members@),
            _ => None,
        },
        Item::ExportDefaultDecl(dd) => match dd {
            DefaultDecl::Class(ce) => Some(ce.members@),
            _ => None,
        },
        _ => None,
    }
}

/// Does the member list hold a member the pass will rewrite?
pub open spec fn members_have_bare(ms: Seq<ClassMember>) -> bool {
    exists|j: int| 0 <= j < ms.len() && member_is_bare_init(#[trigger] ms[j])
}

/// Does some declarator of the list initialize a bare class?
pub open spec fn declarators_have_bare(ds: Seq<VarDeclarator>) -> bool {
    exists|j: int| 0 <= j < ds.len() && declarator_has_bare(#[trigger] ds[j])
}

/// Is the value a class expression with a member the pass will rewrite?
pub open spec fn expr_has_bare_init(e: Expr) -> bool {
    match e {
        Expr::Class(ce) => members_have_bare(ce.members@),
        _ => false,
    }
}

/// How a value expression leaves the pass: a class expression with a bare
/// member has its members rewritten, name and shell kept; anything else is
/// untouched.
pub open spec fn expr_init_rel(pre: Expr, post: Expr, excl: Seq<String>) -> bool {
    if expr_has_bare_init(pre) {
        &&& pre matches Expr::Class(ce0)
        &&& post matches Expr::Class(ce1)
        &&& ce1.ident == ce0.ident
        &&& ce1.shell == ce0.shell
        &&& members_init_rel(ce0.members@, ce1.members@, excl)
    } else {
        post == pre
    }
}

/// Does this declarator initialize a class with a bare member?
pub open spec fn declarator_has_bare(dec: VarDeclarator) -> bool {
    dec.init matches Some(e) && expr_has_bare_init(e)
}

/// Does the declaration hold a bare class, as a class declaration or inside
/// a declarator's initializer?
pub open spec fn decl_has_bare(d: Decl) -> bool {
    match d {
        Decl::Class(cd) => members_have_bare(cd.members@),
        Decl::Var(vd) => declarators_have_bare(vd.decls@),
        _ => false,
    }
}

/// Does the item hold a class with a member the pass will rewrite — as a
/// class item, in a declarator's initializer, on an assignment's right-hand
/// side, or as a default-exported class expression?
pub open spec fn item_has_bare_init(it: Item) -> bool {
    match it {
        Item::Stmt(s) => match s {
            Stmt::Decl(d) => decl_has_bare(d),
            Stmt::Assign(a) => expr_has_bare_init(a.value),
            _ => false,
        },
        Item::ExportDecl(d) => decl_has_bare(d),
        Item::ExportDefaultDecl(dd) => dd matches DefaultDecl::Class(ce) && members_have_bare(
            ce.members@,
        ),
        Item::ExportDefaultExpr(e) => expr_has_bare_init(e),
        _ => false,
    }
}

/// How one declarator leaves the pass.
pub open spec fn declarator_init_rel(p0: VarDeclarator, p1: VarDeclarator, excl: Seq<String>) -> bool {
    &&& p1.name == p0.name
    &&& match p0.init {
        Some(e0) => p1.init matches Some(e1) && expr_init_rel(e0, e1, excl),
        None => p1.init is None,
    }
}

/// How a declaration leaves the pass: a class declaration has its members
/// rewritten, name and shell kept; a variable declaration has each
/// declarator's value treated as `expr_init_rel` says.
pub open spec fn decl_init_rel(d0: Decl, d1: Decl, excl: Seq<String>) -> bool {
    match d0 {
        Decl::Class(cd0) => {
            &&& d1 matches Decl::Class(cd1)
            &&& cd1.ident == cd0.ident
            &&& cd1.shell == cd0.shell
            &&& members_init_rel(cd0.members@, cd1.members@, excl)
        },
        Decl::Var(vd0) => {
            &&& d1 matches Decl::Var(vd1)
            &&& vd1.kind == vd0.kind
            &&& vd1.decls@.len() == vd0.decls@.len()
            &&& forall|j: int|
                0 <= j < vd0.decls@.len() ==> declarator_init_rel(
                    #[trigger] vd0.decls@[j],
                    vd1.decls@[j],
                    excl,
                )
        },
        _ => false,
    }
}

/// How one item leaves the pass: a class item or a class-holding value has
/// its members rewritten in place, everything else about the item kept; an
/// item without a bare member is untouched.
pub open spec fn item_init_rel(pre: Item, post: Item, excl: Seq<String>) -> bool {
    if item_has_bare_init(pre) {
        match pre {
            Item::Stmt(s0) => match s0 {
                Stmt::Decl(d0) => {
                    &&& post matches Item::Stmt(s1)
                    &&& s1 matches Stmt::Decl(d1)
                    &&& decl_init_rel(d0, d1, excl)
                },
                Stmt::Assign(a0) => {
                    &&& post matches Item::Stmt(s1)
                    &&& s1 matches Stmt::Assign(a1)
                    &&& a1.target == a0.target
                    &&& a1.plain == a0.plain
                    &&& expr_init_rel(a0.value, a1.value, excl)
                },
                _ => false,
            },
            Item::ExportDecl(d0) => {
                &&& post matches Item::ExportDecl(d1)
                &&& decl_init_rel(d0, d1, excl)
            },
            Item::ExportDefaultDecl(dd0) => {
                &&& dd0 matches DefaultDecl::Class(ce0)
                &&& post matches Item::ExportDefaultDecl(dd1)
                &&& dd1 matches DefaultDecl::Class(ce1)
                &&& ce1.ident == ce0.ident
                &&& ce1.shell == ce0.shell
                &&& members_init_rel(ce0.members@, ce1.members@, excl)
            },
            Item::ExportDefaultExpr(e0) => {
                &&& post matches Item::ExportDefaultExpr(e1)
                &&& expr_init_rel(e0, e1, excl)
            },
            _ => false,
        }
    } else {
        post == pre
    }
}

/// Does any item of the module hold a class with a bare member?
pub open spec fn has_bare_init_any(items: Seq<Item>) -> bool {
    exists|i: int| 0 <= i < items.len() && item_has_bare_init(#[trigger] items[i])
}

/// How the whole pass leaves the module: untouched when no bare member
/// exists, else rewritten item by item.
pub open spec fn init_pass_rel(items: Seq<Item>, excl: Seq<String>, out: Seq<Item>) -> bool {
    if !has_bare_init_any(items) {
        out == items
    } else {
        &&& out.len() == items.len()
        &&& forall|i: int| 0 <= i < items.len() ==> item_init_rel(items[i], #[trigger] out[i], excl)
    }
}

/// Is this member a `getInitialProps` method or bare property?
fn member_is_bare_init_exec(m: &ClassMember) -> (r: bool)
    ensures
        r == member_is_bare_init(*m),
{
    match m {
        ClassMember::Method(mm) => match &mm.key {
            MemberKey::Ident(k) => *k == names::init_props_str(),
            _ => false,
        },
        ClassMember::Prop(p) => match &p.key {
            MemberKey::Ident(k) => {
                if *k == names::init_props_str() {
                    match &p.value {
                        Some(v) => {
                            let adapter = names::init_props_local_str();
                            !crate::utils::expr_is_adapter_call(v, &adapter)
                        },
                        None => false,
                    }
                } else {
                    false
                }
            },
            _ => false,
        },
        ClassMember::Opaque(_) => false,
    }
}

/// Rewrite one bare member.
fn wrap_member(m: ClassMember, excluded: &Vec<String>) -> (r: ClassMember)
    requires
        member_is_bare_init(m),
    ensures
        member_init_rel(m, r, excluded@),
{
    match m {
        ClassMember::Method(mm) => {
            let value = Expr::Func(FnExpr { ident: None, function: mm.function }).wrap_init_props(
                excluded_arg(excluded),
            );
            ClassMember::Prop(ClassProp { key: mm.key, value: Some(value), is_static: mm.is_static })
        },
        ClassMember::Prop(p) => {
            let v0 = match p.value {
                Some(v) => v,
                None => {
                    proof {
                        assert(false);
                    }
                    Expr::Opaque(0)
                },
            };
            let value = v0.wrap_init_props(excluded_arg(excluded));
            ClassMember::Prop(ClassProp { key: p.key, value: Some(value), is_static: p.is_static })
        },
        ClassMember::Opaque(_) => {
            proof {
                assert(false);
            }
            m
        },
    }
}

/// Rewrite every bare member of a class body, in place.
#[verifier::loop_isolation(false)]
fn wrap_class_members(members: &mut Vec<ClassMember>, excluded: &Vec<String>)
    ensures
        members_init_rel(old(members)@, final(members)@, excluded@),
{
    let ghost orig = members@;
    let mut j: usize = 0;
    while j < members.len()
        invariant
            members@.len() == orig.len(),
            j <= orig.len(),
            forall|j2: int| 0 <= j2 < j ==> member_init_rel(orig[j2], #[trigger] members@[j2], excluded@),
            forall|j2: int| j <= j2 < orig.len() ==> #[trigger] members@[j2] == orig[j2],
        decreases orig.len() - j,
    {
        if member_is_bare_init_exec(&members[j]) {
            let m = members.remove(j);
            let m2 = wrap_member(m, excluded);
            members.insert(j, m2);
            proof {
                assert forall|j2: int| 0 <= j2 < j + 1 implies member_init_rel(
                    orig[j2],
                    #[trigger] members@[j2],
                    excluded@,
                ) by {}
                assert forall|j2: int| j + 1 <= j2 < orig.len() implies #[trigger] members@[j2]
                    == orig[j2] by {}
            }
        }
        j = j + 1;
    }
}

/// Is this value a class expression with a bare member?
fn expr_has_bare_exec(e: &Expr) -> (r: bool)
    ensures
        r == expr_has_bare_init(*e),
{
    match e {
        Expr::Class(ce) => scan_members(&ce.members),
        _ => false,
    }
}

/// Does this declaration hold a bare class?
#[verifier::loop_isolation(false)]
fn decl_has_bare_exec(d: &Decl) -> (r: bool)
    ensures
        r == decl_has_bare(*d),
{
    match d {
        Decl::Class(cd) => {
            let rr = scan_members(&cd.members);
            proof {
                assert(decl_has_bare(*d) == members_have_bare(cd.members@));
            }
            rr
        },
        Decl::Var(vd) => {
            proof {
                assert(decl_has_bare(*d) == declarators_have_bare(vd.decls@));
            }
            let mut j: usize = 0;
            while j < vd.decls.len()
                invariant
                    j <= vd.decls@.len(),
                    forall|j2: int|
                        0 <= j2 < j ==> !declarator_has_bare(#[trigger] vd.decls@[j2]),
                decreases vd.decls@.len() - j,
            {
                let hit = match &vd.decls[j].init {
                    Some(e) => expr_has_bare_exec(e),
                    None => false,
                };
                if hit {
                    proof {
                        assert(declarator_has_bare(vd.decls@[j as int]));
                        assert(declarators_have_bare(vd.decls@));
                    }
                    return true;
                }
                j = j + 1;
            }
            proof {
                assert(!declarators_have_bare(vd.decls@));
            }
            false
        },
        _ => false,
    }
}

/// Does the item hold a class with a bare member?
fn item_has_bare_init_exec(it: &Item) -> (r: bool)
    ensures
        r == item_has_bare_init(*it),
{
    match it {
        Item::Stmt(s) => match s {
            Stmt::Decl(d) => decl_has_bare_exec(d),
            Stmt::Assign(a) => expr_has_bare_exec(&a.value),
            _ => false,
        },
        Item::ExportDecl(d) => decl_has_bare_exec(d),
        Item::ExportDefaultDecl(dd) => match dd {
            DefaultDecl::Class(ce) => scan_members(&ce.members),
            _ => false,
        },
        Item::ExportDefaultExpr(e) => expr_has_bare_exec(e),
        _ => false,
    }
}

/// Does the member list hold a bare `getInitialProps` member?
fn scan_members(members: &Vec<ClassMember>) -> (r: bool)
    ensures
        r == members_have_bare(members@),
{
    let mut j: usize = 0;
    while j < members.len()
        invariant
            j <= members@.len(),
            forall|j2: int| 0 <= j2 < j ==> !member_is_bare_init(#[trigger] members@[j2]),
        decreases members@.len() - j,
    {
        if member_is_bare_init_exec(&members[j]) {
            return true;
        }
        j = j + 1;
    }
    false
}

/// Rewrite a bare class expression in place.
fn wrap_class_expr(e: Expr, excluded: &Vec<String>) -> (r: Expr)
    ensures
        expr_init_rel(e, r, excluded@),
{
    match e {
        Expr::Class(ce) => {
            let ghost pre = ce;
            let mut ce = ce;
            if scan_members(&ce.members) {
                wrap_class_members(&mut ce.members, excluded);
            }
            proof {
                assert(expr_has_bare_init(e) == members_have_bare(pre.members@));
            }
            Expr::Class(ce)
        },
        other => other,
    }
}

/// Rewrite every bare class of a declaration: a class declaration's own
/// members, or the class expressions among its declarators' values.
#[verifier::loop_isolation(false)]
fn wrap_decl(d: Decl, excluded: &Vec<String>) -> (r: Decl)
    requires
        decl_has_bare(d),
    ensures
        decl_init_rel(d, r, excluded@),
{
    let ghost pre = d;
    match d {
        Decl::Class(cd) => {
            let mut cd = cd;
            let ghost members_pre = cd.members@;
            wrap_class_members(&mut cd.members, excluded);
            let r = Decl::Class(cd);
            proof {
                assert(pre matches Decl::Class(cd0) && cd0.members@ == members_pre);
                assert(decl_init_rel(pre, r, excluded@));
            }
            r
        },
        Decl::Var(vd) => {
            let mut vd = vd;
            let ghost orig = vd.decls@;
            proof {
                assert(pre matches Decl::Var(vd0) && vd0.decls@ == orig && vd0.kind == vd.kind);
            }
            let mut j: usize = 0;
            while j < vd.decls.len()
                invariant
                    vd.kind == pre->Var_0.kind,
                    vd.decls@.len() == orig.len(),
                    j <= orig.len(),
                    forall|j2: int|
                        0 <= j2 < j ==> declarator_init_rel(
                            orig[j2],
                            #[trigger] vd.decls@[j2],
                            excluded@,
                        ),
                    forall|j2: int| j <= j2 < orig.len() ==> #[trigger] vd.decls@[j2] == orig[j2],
                decreases orig.len() - j,
            {
                let hit = match &vd.decls[j].init {
                    Some(e) => expr_has_bare_exec(e),
                    None => false,
                };
                if hit {
                    let dec = vd.decls.remove(j);
                    let init = match dec.init {
                        Some(e) => e,
                        None => {
                            proof {
                                assert(false);
                            }
                            Expr::Opaque(0)
                        },
                    };
                    let wrapped = wrap_class_expr(init, excluded);
                    vd.decls.insert(j, VarDeclarator { name: dec.name, init: Some(wrapped) });
                    proof {
                        assert(declarator_init_rel(orig[j as int], vd.decls@[j as int], excluded@));
                        assert forall|j2: int| 0 <= j2 < j + 1 implies declarator_init_rel(
                            orig[j2],
                            #[trigger] vd.decls@[j2],
                            excluded@,
                        ) by {}
                        assert forall|j2: int|
                            j + 1 <= j2 < orig.len() implies #[trigger] vd.decls@[j2]
                                == orig[j2] by {}
                    }
                } else {
                    proof {
                        assert(declarator_init_rel(orig[j as int], vd.decls@[j as int], excluded@));
                    }
                }
                j = j + 1;
            }
            let r = Decl::Var(vd);
            proof {
                assert forall|j2: int| 0 <= j2 < orig.len() implies declarator_init_rel(
                    #[trigger] pre->Var_0.decls@[j2],
                    vd.decls@[j2],
                    excluded@,
                ) by {
                    assert(pre->Var_0.decls@[j2] == orig[j2]);
                    assert(declarator_init_rel(orig[j2], vd.decls@[j2], excluded@));
                }
                assert(decl_init_rel(pre, r, excluded@));
            }
            r
        },
        _ => {
            proof {
                assert(false);
            }
            d
        },
    }
}

/// Rewrite one item holding a bare class.
fn wrap_bare_item(it: Item, excluded: &Vec<String>) -> (r: Item)
    requires
        item_has_bare_init(it),
    ensures
        item_init_rel(it, r, excluded@),
{
    match it {
        Item::Stmt(s) => match s {
            Stmt::Decl(d) => Item::Stmt(Stmt::Decl(wrap_decl(d, excluded))),
            Stmt::Assign(a) => {
                let value = wrap_class_expr(a.value, excluded);
                Item::Stmt(Stmt::Assign(AssignStmt { target: a.target, plain: a.plain, value }))
            },
            _ => {
                proof {
                    assert(false);
                }
                Item::Stmt(s)
            },
        },
        Item::ExportDecl(d) => Item::ExportDecl(wrap_decl(d, excluded)),
        Item::ExportDefaultDecl(dd) => match dd {
            DefaultDecl::Class(ce) => {
                let mut ce = ce;
                wrap_class_members(&mut ce.members, excluded);
                Item::ExportDefaultDecl(DefaultDecl::Class(ce))
            },
            _ => {
                proof {
                    assert(false);
                }
                Item::ExportDefaultDecl(dd)
            },
        },
        Item::ExportDefaultExpr(e) => Item::ExportDefaultExpr(wrap_class_expr(e, excluded)),
        _ => {
            proof {
                assert(false);
            }
            it
        },
    }
}

/// The whole pass: wrap every bare `getInitialProps` member of every
/// top-level class, and report whether any was wrapped, which decides
/// whether the init-props adapter import is owed.  A module without such a
/// member is returned unchanged.
#[verifier::loop_isolation(false)]
pub fn wrap_init_members(items: &mut Vec<Item>, excluded: &Vec<String>) -> (used: bool)
    ensures
        init_pass_rel(old(items)@, excluded@, final(items)@),
        used == has_bare_init_any(old(items)@),
{
    let ghost orig = items@;
    let mut used = false;
    let mut i: usize = 0;
    while i < items.len()
        invariant
            items@.len() == orig.len(),
            i <= orig.len(),
            used == exists|i2: int| 0 <= i2 < i && item_has_bare_init(#[trigger] orig[i2]),
            forall|i2: int| 0 <= i2 < i ==> item_init_rel(orig[i2], #[trigger] items@[i2], excluded@),
            forall|i2: int| i <= i2 < orig.len() ==> #[trigger] items@[i2] == orig[i2],
            !used ==> items@ == orig,
        decreases orig.len() - i,
    {
        let ghost used_pre = used;
        if item_has_bare_init_exec(&items[i]) {
            let it = items.remove(i);
            let it2 = wrap_bare_item(it, excluded);
            items.insert(i, it2);
            used = true;
            proof {
                assert(item_has_bare_init(orig[i as int]));
                assert forall|i2: int| 0 <= i2 < i + 1 implies item_init_rel(
                    orig[i2],
                    #[trigger] items@[i2],
                    excluded@,
                ) by {}
                assert forall|i2: int| i + 1 <= i2 < orig.len() implies #[trigger] items@[i2]
                    == orig[i2] by {}
            }
        } else {
            proof {
                assert(item_init_rel(orig[i as int], items@[i as int], excluded@));
            }
        }
        proof {
            if used {
                if used_pre {
                    let w = choose|i2: int| 0 <= i2 < i && item_has_bare_init(orig[i2]);
                    assert(0 <= w < i + 1 && item_has_bare_init(orig[w]));
                } else {
                    assert(item_has_bare_init(orig[i as int]));
                }
            }
        }
        i = i + 1;
    }
    proof {
        if used {
            assert(has_bare_init_any(orig));
        } else {
            assert(!has_bare_init_any(orig));
        }
    }
    used
}

} // verus!
