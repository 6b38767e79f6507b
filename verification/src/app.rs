//! The marked-subtree lifting engine: elements carrying the marker attribute
//! are rewritten into a wrapper-component invocation whose `props` attribute
//! serializes the remaining attributes and whose `component` attribute names
//! the original tag.

use vstd::prelude::*;
use crate::ast::{
    Attr, AttrName, AttrOrSpread, AttrValue, CallExpr, Child, Element, ElemName, Expr,
    ExprOrSpread, ImportDecl, ImportNamed, ImportSpec, Item, KeyValueProp, Lit, PropName,
    PropOrSpread,
};
use crate::names;
use crate::utils::is_ident_expr;

verus! {

/// What `swc` accepts as a bare identifier; the text decides alone.
pub uninterp spec fn valid_ident_name(s: Seq<char>) -> bool;

/// Relies on swc_core::ecma::utils::is_valid_ident: whether the text can
/// stand as a bare identifier.  The result depends on the characters alone.
#[verifier::external_body]
fn is_valid_ident_str(s: &String) -> (r: bool)
    ensures
        r == valid_ident_name(s@),
{
    swc_core::ecma::utils::is_valid_ident(s.as_str())
}

/// The result of lifting: the rewritten element and whether any rewrite
/// occurred in it.
#[derive(Debug)]
pub struct Lifted {
    pub elem: Element,
    pub changed: bool,
}

/// Is `a` a plain attribute whose name is the marker attribute?
pub open spec fn attr_is_marker(a: AttrOrSpread) -> bool {
    &&& a matches AttrOrSpread::Attr(at)
    &&& at.name matches AttrName::Ident(n)
    &&& n@ == names::directive_name()
}

/// Does the attribute list carry the marker?
pub open spec fn has_marker(attrs: Seq<AttrOrSpread>) -> bool {
    exists|i: int| 0 <= i < attrs.len() && attr_is_marker(#[trigger] attrs[i])
}

/// A non-marker attribute whose value is an empty expression container: a
/// structurally unreachable shape that the lift refuses.
pub open spec fn attr_fatal(a: AttrOrSpread) -> bool {
    &&& !attr_is_marker(a)
    &&& a matches AttrOrSpread::Attr(at)
    &&& at.value matches Some(v)
    &&& v matches AttrValue::Opaque(_)
}

/// Does the object key `k` spell the attribute name `an`?  A namespaced name
/// becomes the string `ns:name`.
pub open spec fn is_key_of(an: AttrName, k: PropName) -> bool {
    match an {
        AttrName::Ident(s) => k matches PropName::Ident(t) && t@ == s@,
        AttrName::Namespaced(ns) => k matches PropName::Str(t) && t@ == ns.ns@ + ":"@ + ns.name@,
    }
}

/// Does the expression `e` spell the attribute value `v`?  An absent value is
/// the boolean `true`.
pub open spec fn is_value_of(v: Option<AttrValue>, e: Expr) -> bool {
    match v {
        None => e == Expr::Lit(Lit::Bool(true)),
        Some(av) => match av {
            AttrValue::Expr(x) => e == x,
            AttrValue::Elem(el) => e matches Expr::JsxElement(b) && b == el,
            AttrValue::Frag(h) => e == Expr::JsxFragment(h),
            AttrValue::Lit(l) => e matches Expr::Lit(l2) && l2 == l,
            AttrValue::Opaque(_) => false,
        },
    }
}

/// Does the object entry `p` spell the attribute `a`?  A spread attribute
/// becomes a spread entry.
pub open spec fn is_prop_of_attr(a: AttrOrSpread, p: PropOrSpread) -> bool {
    match a {
        AttrOrSpread::Attr(at) => {
            &&& p matches PropOrSpread::KeyValue(kv)
            &&& is_key_of(at.name, kv.key)
            &&& is_value_of(at.value, kv.value)
        },
        AttrOrSpread::Spread(e) => p matches PropOrSpread::Spread(e2) && e2 == e,
    }
}

/// Do the object entries `props` spell exactly the non-marker attributes of
/// `attrs`, in order?
pub open spec fn props_match(attrs: Seq<AttrOrSpread>, props: Seq<PropOrSpread>) -> bool
    decreases attrs.len(),
{
    if attrs.len() == 0 {
        props.len() == 0
    } else if attr_is_marker(attrs[0]) {
        props_match(attrs.skip(1), props)
    } else {
        &&& props.len() > 0
        &&& is_prop_of_attr(attrs[0], props[0])
        &&& props_match(attrs.skip(1), props.skip(1))
    }
}

/// Does `r` express the original tag name `name`?  Identifiers that cannot
/// stand bare become string literals; member chains stay member chains.
pub open spec fn is_component_expr(name: ElemName, r: Expr) -> bool {
    match name {
        ElemName::Ident(s) => if valid_ident_name(s@) {
            is_ident_expr(r, s@)
        } else {
            r matches Expr::Lit(Lit::Str(t)) && t@ == s@
        },
        ElemName::Member(path) => r matches Expr::Member(p) && p == path,
        ElemName::Namespaced(_) => false,
    }
}

/// A marked element can be lifted when its tag is not namespaced and no
/// remaining attribute has an unreachable shape; an unmarked element is left
/// alone and is always acceptable.
pub open spec fn element_liftable(e: Element) -> bool {
    has_marker(e.attrs@) ==> {
        &&& !(e.name matches ElemName::Namespaced(_))
        &&& forall|i: int| 0 <= i < e.attrs@.len() ==> !attr_fatal(#[trigger] e.attrs@[i])
    }
}

/// Is `e` the call `serialize({ ...props of attrs })`?
pub open spec fn is_serialize_call(e: Expr, attrs: Seq<AttrOrSpread>) -> bool {
    &&& e matches Expr::Call(c)
    &&& is_ident_expr(*c.callee, names::serializer_name())
    &&& c.args@.len() == 1
    &&& !c.args@[0].spread
    &&& c.args@[0].expr matches Expr::Object(props)
    &&& props_match(attrs, props@)
}

/// The lifted form of a marked element `pre`: renamed to the deserializer
/// component, its attributes replaced by exactly `props` and `component`.
pub open spec fn is_lifted_elem(pre: Element, post: Element) -> bool {
    &&& post.name matches ElemName::Ident(n) && n@ == names::deserializer_name()
    &&& post.closing == pre.closing
    &&& post.children@ == pre.children@
    &&& post.attrs@.len() == 2
    &&& post.attrs@[0] matches AttrOrSpread::Attr(pa)
    &&& pa.name matches AttrName::Ident(pn) && pn@ == names::props_attr_name()
    &&& pa.value matches Some(pv) && pv matches AttrValue::Expr(pe) && is_serialize_call(
        pe,
        pre.attrs@,
    )
    &&& post.attrs@[1] matches AttrOrSpread::Attr(ca)
    &&& ca.name matches AttrName::Ident(cn) && cn@ == names::component_attr_name()
    &&& ca.value matches Some(cv) && cv matches AttrValue::Expr(ce) && is_component_expr(
        pre.name,
        ce,
    )
}

/// Is `a` the marker attribute?
fn is_marker_attr_exec(a: &AttrOrSpread) -> (r: bool)
    ensures
        r == attr_is_marker(*a),
{
    match a {
        AttrOrSpread::Attr(at) => match &at.name {
            AttrName::Ident(n) => *n == names::directive_str(),
            _ => false,
        },
        _ => false,
    }
}

/// Turn one non-marker attribute into an object-literal entry.
fn attr_to_prop(a: AttrOrSpread) -> (r: Option<PropOrSpread>)
    requires
        !attr_is_marker(a),
    ensures
        r is Some <==> !attr_fatal(a),
        r matches Some(p) ==> is_prop_of_attr(a, p),
{
    match a {
        AttrOrSpread::Spread(e) => Some(PropOrSpread::Spread(e)),
        AttrOrSpread::Attr(at) => {
            let key: PropName = match at.name {
                AttrName::Ident(id) => PropName::Ident(id),
                AttrName::Namespaced(nsn) => {
                    let text = nsn.ns.concat(":").concat(nsn.name.as_str());
                    PropName::Str(text)
                },
            };
            let value: Expr = match at.value {
                Some(AttrValue::Expr(e)) => e,
                Some(AttrValue::Elem(el)) => Expr::JsxElement(el),
                Some(AttrValue::Frag(h)) => Expr::JsxFragment(h),
                Some(AttrValue::Lit(l)) => Expr::Lit(l),
                None => Expr::Lit(Lit::Bool(true)),
                Some(AttrValue::Opaque(_)) => {
                    return None;
                },
            };
            Some(PropOrSpread::KeyValue(KeyValueProp { key, value }))
        },
    }
}

/// Express the original tag name as an expression.
fn element_name_expr(name: ElemName) -> (r: Expr)
    requires
        !(name matches ElemName::Namespaced(_)),
    ensures
        is_component_expr(name, r),
{
    match name {
        ElemName::Ident(id) => {
            if is_valid_ident_str(&id) {
                Expr::Ident(id)
            } else {
                Expr::Lit(Lit::Str(id))
            }
        },
        ElemName::Member(path) => Expr::Member(path),
        ElemName::Namespaced(_) => {
            proof {
                assert(false);
            }
            Expr::Opaque(0)
        },
    }
}

/// Lift one element: when it carries the marker attribute, remove the marker,
/// serialize the remaining attributes into the `props` attribute, name the
/// original tag in the `component` attribute, and rename the element to the
/// deserializer component.  An element without the marker is returned
/// unchanged.  `None` reports a structurally unreachable shape on a marked
/// element.
#[verifier::loop_isolation(false)]
pub fn lift_element(elem: Element) -> (r: Option<Lifted>)
    ensures
        r is Some <==> element_liftable(elem),
        !has_marker(elem.attrs@) ==> r == Some(Lifted { elem, changed: false }),
        r matches Some(l) ==> l.changed == has_marker(elem.attrs@),
        r matches Some(l) ==> (has_marker(elem.attrs@) ==> is_lifted_elem(elem, l.elem)),
{
    let mut found = false;
    let mut i: usize = 0;
    while i < elem.attrs.len()
        invariant
            i <= elem.attrs@.len(),
            found == has_marker(elem.attrs@.subrange(0, i as int)),
        decreases elem.attrs@.len() - i,
    {
        let ghost pre = elem.attrs@.subrange(0, i as int);
        if is_marker_attr_exec(&elem.attrs[i]) {
            found = true;
        }
        proof {
            let post = elem.attrs@.subrange(0, i + 1int);
            assert(pre == post.subrange(0, i as int));
            assert(post[i as int] == elem.attrs@[i as int]);
            if has_marker(post) {
                let k = choose|k: int| 0 <= k < post.len() && attr_is_marker(post[k]);
                if k < i {
                    assert(attr_is_marker(pre[k]));
                }
            }
            if has_marker(pre) {
                let k = choose|k: int| 0 <= k < pre.len() && attr_is_marker(pre[k]);
                assert(attr_is_marker(post[k]));
            }
            if attr_is_marker(elem.attrs@[i as int]) {
                assert(attr_is_marker(post[i as int]));
            }
        }
        i = i + 1;
    }
    proof {
        assert(elem.attrs@.subrange(0, elem.attrs@.len() as int) == elem.attrs@);
    }
    if !found {
        return Some(Lifted { elem, changed: false });
    }

    let ghost all_attrs = elem.attrs@;
    let Element { name, attrs, children, closing } = elem;
    proof {
        assert(attrs@ == all_attrs);
        assert(name == elem.name);
    }
    match &name {
        ElemName::Namespaced(_) => {
            return None;
        },
        _ => {},
    }

    let mut attrs = attrs;
    let mut props: Vec<PropOrSpread> = Vec::new();
    proof {
        assert(attrs@ =~= all_attrs.subrange(0, attrs@.len() as int));
        assert(all_attrs.subrange(all_attrs.len() as int, all_attrs.len() as int) =~= Seq::<
            AttrOrSpread,
        >::empty());
    }
    while attrs.len() > 0
        invariant
            attrs@.len() <= all_attrs.len(),
            attrs@ == all_attrs.subrange(0, attrs@.len() as int),
            props_match(all_attrs.subrange(attrs@.len() as int, all_attrs.len() as int), props@),
            forall|k: int|
                attrs@.len() <= k < all_attrs.len() ==> !attr_fatal(#[trigger] all_attrs[k]),
        decreases attrs@.len(),
    {
        let ghost n = attrs@.len() as int;
        let ghost tail = all_attrs.subrange(n, all_attrs.len() as int);
        let ghost longer = all_attrs.subrange(n - 1, all_attrs.len() as int);
        let a = attrs.pop().unwrap();
        proof {
            assert(a == all_attrs[n - 1]);
            assert(attrs@ =~= all_attrs.subrange(0, n - 1));
            assert(longer[0] == all_attrs[n - 1]);
            assert(longer.skip(1) =~= tail);
        }
        if is_marker_attr_exec(&a) {
            proof {
                assert(props_match(longer, props@));
            }
        } else {
            match attr_to_prop(a) {
                Some(p) => {
                    let ghost old_props = props@;
                    props.insert(0, p);
                    proof {
                        assert(props@ =~= seq![p] + old_props);
                        assert(props@[0] == p);
                        assert(props@.skip(1) =~= old_props);
                        assert(props_match(longer, props@));
                    }
                },
                None => {
                    proof {
                        assert(attr_fatal(elem.attrs@[n - 1]));
                    }
                    return None;
                },
            }
        }
    }
    proof {
        assert(all_attrs.subrange(0, all_attrs.len() as int) =~= all_attrs);
        assert(forall|k: int| 0 <= k < elem.attrs@.len() ==> !attr_fatal(#[trigger] elem.attrs@[k]));
    }

    let mut args: Vec<ExprOrSpread> = Vec::new();
    args.push(ExprOrSpread { spread: false, expr: Expr::Object(props) });
    let ser_call = Expr::Call(CallExpr {
        callee: Box::new(Expr::Ident(names::serializer_str())),
        args,
    });
    let comp_expr = element_name_expr(name);

    let mut new_attrs: Vec<AttrOrSpread> = Vec::new();
    new_attrs.push(AttrOrSpread::Attr(Attr {
        name: AttrName::Ident(names::props_attr_str()),
        value: Some(AttrValue::Expr(ser_call)),
    }));
    new_attrs.push(AttrOrSpread::Attr(Attr {
        name: AttrName::Ident(names::component_attr_str()),
        value: Some(AttrValue::Expr(comp_expr)),
    }));

    Some(Lifted {
        elem: Element {
            name: ElemName::Ident(names::deserializer_str()),
            attrs: new_attrs,
            children,
            closing,
        },
        changed: true,
    })
}

/// Every marked element of the whole subtree can be lifted.
pub open spec fn tree_liftable(e: Element) -> bool
    decreases e,
{
    &&& element_liftable(e)
    &&& forall|i: int| 0 <= i < e.children@.len() ==> child_liftable(#[trigger] e.children@[i])
    &&& forall|i: int| 0 <= i < e.attrs@.len() ==> attr_sub_liftable(#[trigger] e.attrs@[i])
}

pub open spec fn child_liftable(c: Child) -> bool
    decreases c,
{
    match c {
        Child::Elem(b) => tree_liftable(*b),
        Child::Opaque(_) => true,
    }
}

pub open spec fn attr_sub_liftable(a: AttrOrSpread) -> bool
    decreases a,
{
    match a {
        AttrOrSpread::Attr(at) => match at.value {
            Some(v) => match v {
                AttrValue::Elem(b) => tree_liftable(*b),
                _ => true,
            },
            None => true,
        },
        AttrOrSpread::Spread(_) => true,
    }
}

/// Some element of the subtree carries the marker.
pub open spec fn subtree_marked(e: Element) -> bool
    decreases e,
{
    ||| has_marker(e.attrs@)
    ||| exists|i: int| 0 <= i < e.children@.len() && child_marked(#[trigger] e.children@[i])
    ||| exists|i: int| 0 <= i < e.attrs@.len() && attr_sub_marked(#[trigger] e.attrs@[i])
}

pub open spec fn child_marked(c: Child) -> bool
    decreases c,
{
    match c {
        Child::Elem(b) => subtree_marked(*b),
        Child::Opaque(_) => false,
    }
}

pub open spec fn attr_sub_marked(a: AttrOrSpread) -> bool
    decreases a,
{
    match a {
        AttrOrSpread::Attr(at) => match at.value {
            Some(v) => match v {
                AttrValue::Elem(b) => subtree_marked(*b),
                _ => false,
            },
            None => false,
        },
        AttrOrSpread::Spread(_) => false,
    }
}

/// How the depth-first lift leaves one element: children and element-valued
/// attributes are lifted first, then the node itself when it carries the
/// marker.
pub open spec fn tree_lift_rel(pre: Element, post: Element) -> bool
    decreases pre, 3int,
{
    if has_marker(pre.attrs@) {
        &&& post.name matches ElemName::Ident(n) && n@ == names::deserializer_name()
        &&& post.closing == pre.closing
        &&& kids_rel(pre.children@, post.children@)
        &&& post.attrs@.len() == 2
        &&& post.attrs@[0] matches AttrOrSpread::Attr(pa)
        &&& pa.name matches AttrName::Ident(pn) && pn@ == names::props_attr_name()
        &&& pa.value matches Some(pv) && pv matches AttrValue::Expr(pe) && is_serialize_call_rec(
            pe,
            pre.attrs@,
        )
        &&& post.attrs@[1] matches AttrOrSpread::Attr(ca)
        &&& ca.name matches AttrName::Ident(cn) && cn@ == names::component_attr_name()
        &&& ca.value matches Some(cv) && cv matches AttrValue::Expr(ce) && is_component_expr(
            pre.name,
            ce,
        )
    } else {
        &&& post.name == pre.name
        &&& post.closing == pre.closing
        &&& attrs_rel(pre.attrs@, post.attrs@)
        &&& kids_rel(pre.children@, post.children@)
    }
}

/// Is `e` the call `serialize({...})` whose object spells the lifted forms
/// of the non-marker attributes `attrs`?
pub open spec fn is_serialize_call_rec(e: Expr, attrs: Seq<AttrOrSpread>) -> bool
    decreases attrs, 2int,
{
    &&& e matches Expr::Call(c)
    &&& is_ident_expr(*c.callee, names::serializer_name())
    &&& c.args@.len() == 1
    &&& !c.args@[0].spread
    &&& c.args@[0].expr matches Expr::Object(props)
    &&& lifted_props(attrs, props@)
}

/// The object entries spell the non-marker attributes in order, each lifted.
pub open spec fn lifted_props(attrs: Seq<AttrOrSpread>, props: Seq<PropOrSpread>) -> bool
    decreases attrs, 1int,
{
    if attrs.len() == 0 {
        props.len() == 0
    } else if attr_is_marker(attrs[0]) {
        lifted_props(attrs.subrange(1, attrs.len() as int), props)
    } else {
        &&& props.len() > 0
        &&& lifted_prop_of(attrs[0], props[0])
        &&& lifted_props(
            attrs.subrange(1, attrs.len() as int),
            props.subrange(1, props.len() as int),
        )
    }
}

/// One attribute's object entry, its element value lifted first.
pub open spec fn lifted_prop_of(a: AttrOrSpread, p: PropOrSpread) -> bool
    decreases a, 3int,
{
    match a {
        AttrOrSpread::Attr(a0) => match a0.value {
            Some(v0) => match v0 {
                AttrValue::Elem(b) => {
                    &&& p matches PropOrSpread::KeyValue(kv)
                    &&& is_key_of(a0.name, kv.key)
                    &&& kv.value matches Expr::JsxElement(b2)
                    &&& tree_lift_rel(*b, *b2)
                },
                _ => is_prop_of_attr(a, p),
            },
            None => is_prop_of_attr(a, p),
        },
        AttrOrSpread::Spread(_) => is_prop_of_attr(a, p),
    }
}

pub open spec fn kids_rel(pre: Seq<Child>, post: Seq<Child>) -> bool
    decreases pre, 0int,
{
    &&& post.len() == pre.len()
    &&& forall|i: int| 0 <= i < pre.len() ==> child_rel(#[trigger] pre[i], post[i])
}

pub open spec fn child_rel(pre: Child, post: Child) -> bool
    decreases pre, 3int,
{
    match pre {
        Child::Elem(b) => post matches Child::Elem(b2) && tree_lift_rel(*b, *b2),
        Child::Opaque(_) => post == pre,
    }
}

pub open spec fn attrs_rel(pre: Seq<AttrOrSpread>, post: Seq<AttrOrSpread>) -> bool
    decreases pre, 0int,
{
    &&& post.len() == pre.len()
    &&& forall|i: int| 0 <= i < pre.len() ==> attr_rel(#[trigger] pre[i], post[i])
}

pub open spec fn attr_rel(pre: AttrOrSpread, post: AttrOrSpread) -> bool
    decreases pre, 3int,
{
    match pre {
        AttrOrSpread::Attr(a0) => match a0.value {
            Some(v0) => match v0 {
                AttrValue::Elem(b) => {
                    &&& post matches AttrOrSpread::Attr(a1)
                    &&& a1.name == a0.name
                    &&& a1.value matches Some(v1)
                    &&& v1 matches AttrValue::Elem(b2)
                    &&& tree_lift_rel(*b, *b2)
                },
                _ => post == pre,
            },
            None => post == pre,
        },
        AttrOrSpread::Spread(_) => post == pre,
    }
}

/// Recursing into an attribute keeps its marker and fatal status.
proof fn lemma_attr_rel_status(pre: AttrOrSpread, post: AttrOrSpread)
    requires
        attr_rel(pre, post),
    ensures
        attr_is_marker(post) == attr_is_marker(pre),
        attr_fatal(post) == attr_fatal(pre),
{
}

/// Lifting the attributes first and then converting them composes into the
/// one-pass description.
proof fn lemma_compose_props(
    pre: Seq<AttrOrSpread>,
    mid: Seq<AttrOrSpread>,
    props: Seq<PropOrSpread>,
)
    requires
        attrs_rel(pre, mid),
        props_match(mid, props),
    ensures
        lifted_props(pre, props),
    decreases pre.len(),
{
    if pre.len() == 0 {
        assert(mid.len() == 0);
    } else {
        assert(attr_rel(pre[0], mid[0]));
        lemma_attr_rel_status(pre[0], mid[0]);
        let pre1 = pre.subrange(1, pre.len() as int);
        let mid1 = mid.subrange(1, mid.len() as int);
        assert(attrs_rel(pre1, mid1)) by {
            assert forall|i: int| 0 <= i < pre1.len() implies attr_rel(
                #[trigger] pre1[i],
                mid1[i],
            ) by {
                assert(pre1[i] == pre[i + 1]);
                assert(mid1[i] == mid[i + 1]);
                assert(attr_rel(pre[i + 1], mid[i + 1]));
            }
        }
        assert(mid.skip(1) =~= mid1);
        if attr_is_marker(pre[0]) {
            assert(props_match(mid1, props));
            lemma_compose_props(pre1, mid1, props);
        } else {
            assert(props.len() > 0);
            assert(is_prop_of_attr(mid[0], props[0]));
            assert(lifted_prop_of(pre[0], props[0]));
            let props1 = props.subrange(1, props.len() as int);
            assert(props.skip(1) =~= props1);
            assert(props_match(mid1, props1));
            lemma_compose_props(pre1, mid1, props1);
        }
    }
}

/// Gluing one recursion step: a marked node whose children and attributes
/// were lifted and which was then itself lifted.
proof fn lemma_combine_marked(elem: Element, mid: Element, post: Element)
    requires
        has_marker(elem.attrs@),
        mid.name == elem.name,
        mid.closing == elem.closing,
        attrs_rel(elem.attrs@, mid.attrs@),
        kids_rel(elem.children@, mid.children@),
        is_lifted_elem(mid, post),
    ensures
        tree_lift_rel(elem, post),
{
    assert(post.children@ == mid.children@);
    assert(kids_rel(elem.children@, post.children@));
    assert(post.attrs@[0] matches AttrOrSpread::Attr(pa) && pa.value matches Some(pv)
        && pv matches AttrValue::Expr(pe) && is_serialize_call(pe, mid.attrs@));
    let pe = post.attrs@[0]->Attr_0.value->Some_0->Expr_0;
    assert(is_serialize_call(pe, mid.attrs@));
    assert(pe matches Expr::Call(c) && c.args@[0].expr matches Expr::Object(props) && props_match(
        mid.attrs@,
        props@,
    ));
    let props = pe->Call_0.args@[0].expr->Object_0;
    lemma_compose_props(elem.attrs@, mid.attrs@, props@);
    assert(is_serialize_call_rec(pe, elem.attrs@));
    assert(tree_lift_rel(elem, post));
}

/// Gluing one recursion step: an unmarked node whose children and
/// attributes were lifted and which was then passed through.
proof fn lemma_combine_unmarked(elem: Element, mid: Element, post: Element)
    requires
        !has_marker(elem.attrs@),
        mid.name == elem.name,
        mid.closing == elem.closing,
        attrs_rel(elem.attrs@, mid.attrs@),
        kids_rel(elem.children@, mid.children@),
        post == mid,
    ensures
        tree_lift_rel(elem, post),
{
}

/// The changed flag of one recursion step spells subtree markedness.
proof fn lemma_marked_total(elem: Element, sub_changed: bool, self_changed: bool)
    requires
        sub_changed == ((exists|k: int|
            0 <= k < elem.children@.len() && child_marked(#[trigger] elem.children@[k])) || (
        exists|k: int|
            0 <= k < elem.attrs@.len() && attr_sub_marked(#[trigger] elem.attrs@[k]))),
        self_changed == has_marker(elem.attrs@),
    ensures
        (sub_changed || self_changed) == subtree_marked(elem),
{
}

/// The subtree lifting engine: a single depth-first traversal, children
/// before the current node, so nested marked subtrees are each lifted before
/// their ancestor is inspected.  The flag reports whether any lift occurred
/// in the subtree, so the module can be given the imports it needs.
#[verifier::loop_isolation(false)]
#[verifier::rlimit(60)]
pub fn lift_tree(elem: Element) -> (r: Option<Lifted>)
    ensures
        r is Some <==> tree_liftable(elem),
        r matches Some(l) ==> tree_lift_rel(elem, l.elem) && l.changed == subtree_marked(elem),
    decreases elem,
{
    let Element { name, attrs, children, closing } = elem;
    let mut changed = false;

    let mut children = children;
    let total_children = children.len();
    let mut new_children: Vec<Child> = Vec::new();
    let ghost orig_children = children@;
    let mut ci: usize = 0;
    proof {
        assert(name == elem.name);
        assert(closing == elem.closing);
        assert(orig_children == elem.children@);
        assert(orig_children.len() == total_children as nat);
        assert(children@ =~= orig_children.subrange(0, orig_children.len() as int));
    }
    while children.len() > 0
        invariant
            orig_children.len() <= usize::MAX,
            ci <= orig_children.len(),
            children@ == orig_children.subrange(ci as int, orig_children.len() as int),
            new_children@.len() == ci,
            forall|k: int|
                0 <= k < ci ==> child_rel(#[trigger] orig_children[k], new_children@[k]),
            forall|k: int| 0 <= k < ci ==> child_liftable(#[trigger] orig_children[k]),
            changed == exists|k: int|
                0 <= k < ci && child_marked(#[trigger] orig_children[k]),
        decreases children@.len(),
    {
        let ghost changed_pre = changed;
        let c = children.remove(0);
        proof {
            assert(c == orig_children[ci as int]);
            assert(children@ =~= orig_children.subrange(ci + 1int, orig_children.len() as int));
        }
        match c {
            Child::Elem(b) => {
                match lift_tree(*b) {
                    Some(l) => {
                        changed = changed || l.changed;
                        new_children.push(Child::Elem(Box::new(l.elem)));
                    },
                    None => {
                        proof {
                            assert(!child_liftable(orig_children[ci as int]));
                        }
                        return None;
                    },
                }
            },
            Child::Opaque(h) => {
                new_children.push(Child::Opaque(h));
            },
        }
        proof {
            assert(child_rel(orig_children[ci as int], new_children@[ci as int]));
            if changed {
                if changed_pre {
                    let w = choose|k: int| 0 <= k < ci && child_marked(orig_children[k]);
                    assert(0 <= w < ci + 1 && child_marked(orig_children[w]));
                } else {
                    assert(child_marked(orig_children[ci as int]));
                }
            }
        }
        ci = ci + 1;
    }
    let ghost children_changed = changed;

    let mut attrs = attrs;
    let total_attrs = attrs.len();
    let mut new_attrs: Vec<AttrOrSpread> = Vec::new();
    let ghost orig_attrs = attrs@;
    let mut ai: usize = 0;
    proof {
        assert(orig_attrs == elem.attrs@);
        assert(orig_attrs.len() == total_attrs as nat);
        assert(attrs@ =~= orig_attrs.subrange(0, orig_attrs.len() as int));
    }
    while attrs.len() > 0
        invariant
            orig_attrs.len() <= usize::MAX,
            ai <= orig_attrs.len(),
            attrs@ == orig_attrs.subrange(ai as int, orig_attrs.len() as int),
            new_attrs@.len() == ai,
            forall|k: int| 0 <= k < ai ==> attr_rel(#[trigger] orig_attrs[k], new_attrs@[k]),
            forall|k: int| 0 <= k < ai ==> attr_sub_liftable(#[trigger] orig_attrs[k]),
            forall|k: int|
                0 <= k < ai ==> (attr_is_marker(#[trigger] new_attrs@[k]) == attr_is_marker(
                    orig_attrs[k],
                ) && attr_fatal(new_attrs@[k]) == attr_fatal(orig_attrs[k])),
            changed == (children_changed || exists|k: int|
                0 <= k < ai && attr_sub_marked(#[trigger] orig_attrs[k])),
        decreases attrs@.len(),
    {
        let ghost changed_pre = changed;
        let a = attrs.remove(0);
        proof {
            assert(a == orig_attrs[ai as int]);
            assert(attrs@ =~= orig_attrs.subrange(ai + 1int, orig_attrs.len() as int));
        }
        match a {
            AttrOrSpread::Attr(at) => {
                match at.value {
                    Some(AttrValue::Elem(b)) => {
                        match lift_tree(*b) {
                            Some(l) => {
                                changed = changed || l.changed;
                                new_attrs.push(AttrOrSpread::Attr(Attr {
                                    name: at.name,
                                    value: Some(AttrValue::Elem(Box::new(l.elem))),
                                }));
                            },
                            None => {
                                proof {
                                    assert(!attr_sub_liftable(orig_attrs[ai as int]));
                                }
                                return None;
                            },
                        }
                    },
                    other => {
                        new_attrs.push(AttrOrSpread::Attr(Attr { name: at.name, value: other }));
                    },
                }
            },
            AttrOrSpread::Spread(e) => {
                new_attrs.push(AttrOrSpread::Spread(e));
            },
        }
        proof {
            assert(attr_rel(orig_attrs[ai as int], new_attrs@[ai as int]));
            if changed {
                if changed_pre {
                } else {
                    assert(attr_sub_marked(orig_attrs[ai as int]));
                }
            }
        }
        ai = ai + 1;
    }

    let mid = Element { name, attrs: new_attrs, children: new_children, closing };
    let ghost mid_v = mid;
    proof {
        assert(has_marker(mid.attrs@) == has_marker(elem.attrs@)) by {
            if has_marker(mid.attrs@) {
                let w = choose|k: int|
                    0 <= k < mid.attrs@.len() && attr_is_marker(mid.attrs@[k]);
                assert(attr_is_marker(elem.attrs@[w]));
            }
            if has_marker(elem.attrs@) {
                let w = choose|k: int|
                    0 <= k < elem.attrs@.len() && attr_is_marker(elem.attrs@[k]);
                assert(attr_is_marker(mid.attrs@[w]));
            }
        }
        assert(element_liftable(mid) == element_liftable(elem)) by {
            if element_liftable(mid) && has_marker(elem.attrs@) {
                assert forall|k: int| 0 <= k < elem.attrs@.len() implies !attr_fatal(
                    #[trigger] elem.attrs@[k],
                ) by {
                    assert(!attr_fatal(mid.attrs@[k]));
                }
            }
            if element_liftable(elem) && has_marker(mid.attrs@) {
                assert forall|k: int| 0 <= k < mid.attrs@.len() implies !attr_fatal(
                    #[trigger] mid.attrs@[k],
                ) by {
                    assert(!attr_fatal(elem.attrs@[k]));
                }
            }
        }
    }
    match lift_element(mid) {
        Some(l) => {
            let self_changed = l.changed;
            let total = changed || self_changed;
            proof {
                assert(attrs_rel(elem.attrs@, mid_v.attrs@));
                assert(kids_rel(elem.children@, mid_v.children@));
                if has_marker(elem.attrs@) {
                    lemma_combine_marked(elem, mid_v, l.elem);
                } else {
                    lemma_combine_unmarked(elem, mid_v, l.elem);
                }
                lemma_marked_total(elem, changed, self_changed);
                assert(tree_liftable(elem));
            }
            Some(Lifted { elem: l.elem, changed: total })
        },
        None => {
            proof {
                assert(!element_liftable(elem));
            }
            None
        },
    }
}

/// Is `it` the named import of the serializer function from the tools module?
pub open spec fn is_serializer_import(it: Item) -> bool {
    &&& it matches Item::Import(d)
    &&& d.src@ == names::tools_src_name()
    &&& d.specifiers@.len() == 1
    &&& d.specifiers@[0] matches ImportSpec::Named(n)
    &&& n.local@ == names::serializer_name()
    &&& n.imported is None
}

/// Is `it` the default import of the deserializer component from the client
/// module?
pub open spec fn is_deserializer_import(it: Item) -> bool {
    &&& it matches Item::Import(d)
    &&& d.src@ == names::client_src_name()
    &&& d.specifiers@.len() == 1
    &&& d.specifiers@[0] matches ImportSpec::DefaultImport(l) && l@ == names::deserializer_name()
}

/// How many items of `s` satisfy `p`.
pub open spec fn count_where(s: Seq<Item>, p: spec_fn(Item) -> bool) -> nat
    decreases s.len(),
{
    if s.len() == 0 {
        0
    } else {
        count_where(s.skip(1), p) + if p(s[0]) {
            1nat
        } else {
            0nat
        }
    }
}

/// How many serializer imports a module holds.
pub open spec fn serializer_import_count(s: Seq<Item>) -> nat {
    count_where(s, |it: Item| is_serializer_import(it))
}

/// How many deserializer-component imports a module holds.
pub open spec fn deserializer_import_count(s: Seq<Item>) -> nat {
    count_where(s, |it: Item| is_deserializer_import(it))
}

/// Give the module the two client-side imports it needs when at least one
/// lift occurred: one named import of the serializer function and one default
/// import of the deserializer component, prepended in that order and each
/// exactly once.  A module in which nothing was lifted is returned unchanged.
#[verifier::loop_isolation(false)]
pub fn prepend_client_imports(items: Vec<Item>, transformed: bool) -> (r: Vec<Item>)
    ensures
        !transformed ==> r == items,
        transformed ==> {
            &&& r@.len() == items@.len() + 2
            &&& is_serializer_import(r@[0])
            &&& is_deserializer_import(r@[1])
            &&& forall|i: int| 0 <= i < items@.len() ==> r@[i + 2] == items@[i]
        },
        serializer_import_count(r@) == serializer_import_count(items@) + if transformed {
            1nat
        } else {
            0nat
        },
        deserializer_import_count(r@) == deserializer_import_count(items@) + if transformed {
            1nat
        } else {
            0nat
        },
{
    if !transformed {
        return items;
    }
    let mut ser_specs: Vec<ImportSpec> = Vec::new();
    ser_specs.push(ImportSpec::Named(ImportNamed {
        local: names::serializer_str(),
        imported: None,
    }));
    let ser_import = Item::Import(ImportDecl { specifiers: ser_specs, src: names::tools_src_str() });
    let mut de_specs: Vec<ImportSpec> = Vec::new();
    de_specs.push(ImportSpec::DefaultImport(names::deserializer_str()));
    let de_import = Item::Import(ImportDecl { specifiers: de_specs, src: names::client_src_str() });

    let mut r: Vec<Item> = Vec::new();
    r.push(ser_import);
    r.push(de_import);
    let mut rest = items;
    r.append(&mut rest);
    proof {
        assert(r@ =~= seq![ser_import, de_import] + items@);
        lemma_count_prepend_two(ser_import, de_import, items@, |it: Item| is_serializer_import(it));
        lemma_count_prepend_two(ser_import, de_import, items@, |it: Item| is_deserializer_import(it));
        assert(!is_deserializer_import(ser_import));
        assert(!is_serializer_import(de_import));
    }
    r
}

/// Counting over a list with two items at its front.
proof fn lemma_count_prepend_two(a: Item, b: Item, s: Seq<Item>, p: spec_fn(Item) -> bool)
    ensures
        count_where(seq![a, b] + s, p) == count_where(s, p) + (if p(a) {
            1nat
        } else {
            0nat
        }) + (if p(b) {
            1nat
        } else {
            0nat
        }),
{
    let whole = seq![a, b] + s;
    let rest = seq![b] + s;
    assert(whole[0] == a);
    assert(rest[0] == b);
    assert(whole.len() == s.len() + 2);
    assert(count_where(whole, p) == count_where(whole.skip(1), p) + (if p(a) {
        1nat
    } else {
        0nat
    }));
    assert(whole.skip(1) =~= rest);
    assert(count_where(rest, p) == count_where(rest.skip(1), p) + (if p(b) {
        1nat
    } else {
        0nat
    }));
    assert(rest.skip(1) =~= s);
}

} // verus!


verus! {

/// The lift leaves no marker behind: a lifted subtree reports no marked
/// element.  With the changed flag's meaning this says a second run of the
/// lifter finds nothing to do, so the module is not given its imports
/// twice.
pub proof fn lemma_lift_leaves_no_marker(pre: Element, post: Element)
    requires
        tree_lift_rel(pre, post),
    ensures
        !subtree_marked(post),
    decreases pre,
{
    reveal_strlit("data-superjson");
    reveal_strlit("props");
    reveal_strlit("component");
    assert(names::directive_name().len() == 14);
    assert(names::props_attr_name().len() == 5);
    assert(names::component_attr_name().len() == 9);
    assert(names::props_attr_name() != names::directive_name());
    assert(names::component_attr_name() != names::directive_name());
    if has_marker(pre.attrs@) {
        assert(!has_marker(post.attrs@)) by {
            if has_marker(post.attrs@) {
                let w = choose|i: int|
                    0 <= i < post.attrs@.len() && attr_is_marker(#[trigger] post.attrs@[i]);
                assert(w == 0 || w == 1);
                assert(false);
            }
        }
        assert forall|i: int|
            0 <= i < post.attrs@.len() implies !attr_sub_marked(#[trigger] post.attrs@[i]) by {}
        assert forall|i: int|
            0 <= i < post.children@.len() implies !child_marked(#[trigger] post.children@[i]) by {
            assert(child_rel(pre.children@[i], post.children@[i]));
            match pre.children@[i] {
                Child::Elem(b) => {
                    let b2 = post.children@[i]->Elem_0;
                    lemma_lift_leaves_no_marker(*b, *b2);
                },
                Child::Opaque(_) => {},
            }
        }
    } else {
        assert(!has_marker(post.attrs@)) by {
            if has_marker(post.attrs@) {
                let w = choose|i: int|
                    0 <= i < post.attrs@.len() && attr_is_marker(#[trigger] post.attrs@[i]);
                assert(attr_rel(pre.attrs@[w], post.attrs@[w]));
                assert(attr_is_marker(pre.attrs@[w]));
                assert(false);
            }
        }
        assert forall|i: int|
            0 <= i < post.attrs@.len() implies !attr_sub_marked(#[trigger] post.attrs@[i]) by {
            assert(attr_rel(pre.attrs@[i], post.attrs@[i]));
            match pre.attrs@[i] {
                AttrOrSpread::Attr(a0) => {
                    match a0.value {
                        Some(v0) => match v0 {
                            AttrValue::Elem(b) => {
                                let a1 = post.attrs@[i]->Attr_0;
                                let b2 = a1.value->Some_0->Elem_0;
                                lemma_lift_leaves_no_marker(*b, *b2);
                            },
                            _ => {},
                        },
                        None => {},
                    }
                },
                AttrOrSpread::Spread(_) => {},
            }
        }
        assert forall|i: int|
            0 <= i < post.children@.len() implies !child_marked(#[trigger] post.children@[i]) by {
            assert(child_rel(pre.children@[i], post.children@[i]));
            match pre.children@[i] {
                Child::Elem(b) => {
                    let b2 = post.children@[i]->Elem_0;
                    lemma_lift_leaves_no_marker(*b, *b2);
                },
                Child::Opaque(_) => {},
            }
        }
    }
}

} // verus!
