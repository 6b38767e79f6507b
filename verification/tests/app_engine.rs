use next_superjson::app::{lift_element, lift_tree, prepend_client_imports};
use next_superjson::ast::{
    Attr, AttrName, AttrOrSpread, AttrValue, Child, Element, ElemName, Expr, ImportSpec, Item, Lit,
    NsName, PropName, PropOrSpread,
};

fn marker() -> AttrOrSpread {
    AttrOrSpread::Attr(Attr { name: AttrName::Ident("data-superjson".to_string()), value: None })
}

fn attr_num(name: &str, num: &str) -> AttrOrSpread {
    AttrOrSpread::Attr(Attr {
        name: AttrName::Ident(name.to_string()),
        value: Some(AttrValue::Lit(Lit::Num(num.to_string()))),
    })
}

fn attr_str(name: &str, s: &str) -> AttrOrSpread {
    AttrOrSpread::Attr(Attr {
        name: AttrName::Ident(name.to_string()),
        value: Some(AttrValue::Lit(Lit::Str(s.to_string()))),
    })
}

fn elem(name: &str, attrs: Vec<AttrOrSpread>, children: Vec<Child>) -> Element {
    Element { name: ElemName::Ident(name.to_string()), attrs, children, closing: true }
}

/// The `props` attribute must hold `serialize({...})`; hand back the object
/// entries.
fn serialize_entries(e: &Element) -> &Vec<PropOrSpread> {
    assert_eq!(e.attrs.len(), 2);
    match &e.attrs[0] {
        AttrOrSpread::Attr(a) => {
            assert!(matches!(&a.name, AttrName::Ident(n) if n == "props"));
            match a.value.as_ref().unwrap() {
                AttrValue::Expr(Expr::Call(c)) => {
                    assert!(matches!(&*c.callee, Expr::Ident(n) if n == "serialize"));
                    assert_eq!(c.args.len(), 1);
                    assert!(!c.args[0].spread);
                    match &c.args[0].expr {
                        Expr::Object(props) => props,
                        other => panic!("unexpected serialize argument: {:?}", other),
                    }
                }
                other => panic!("unexpected props value: {:?}", other),
            }
        }
        other => panic!("unexpected attribute: {:?}", other),
    }
}

#[test]
fn lifts_marked_element_attributes() {
    // An element with attributes {a: 1, b: "x"} and the marker: the object
    // passed to the serializer holds exactly those pairs, and the new
    // attributes are exactly `props` and `component`.
    let e = elem(
        "Thing",
        vec![attr_num("a", "1"), marker(), attr_str("b", "x")],
        vec![],
    );
    let lifted = lift_element(e).unwrap();
    assert!(lifted.changed);
    let out = lifted.elem;
    assert!(matches!(&out.name, ElemName::Ident(n) if n == "SuperJSONComponent"));
    let props = serialize_entries(&out);
    assert_eq!(props.len(), 2);
    match &props[0] {
        PropOrSpread::KeyValue(kv) => {
            assert!(matches!(&kv.key, PropName::Ident(k) if k == "a"));
            assert!(matches!(&kv.value, Expr::Lit(Lit::Num(n)) if n == "1"));
        }
        other => panic!("unexpected entry: {:?}", other),
    }
    match &props[1] {
        PropOrSpread::KeyValue(kv) => {
            assert!(matches!(&kv.key, PropName::Ident(k) if k == "b"));
            assert!(matches!(&kv.value, Expr::Lit(Lit::Str(s)) if s == "x"));
        }
        other => panic!("unexpected entry: {:?}", other),
    }
    match &out.attrs[1] {
        AttrOrSpread::Attr(a) => {
            assert!(matches!(&a.name, AttrName::Ident(n) if n == "component"));
            assert!(matches!(
                a.value.as_ref().unwrap(),
                AttrValue::Expr(Expr::Ident(n)) if n == "Thing"
            ));
        }
        other => panic!("unexpected attribute: {:?}", other),
    }
}

#[test]
fn unmarked_element_is_unchanged() {
    let build = || elem("div", vec![attr_num("a", "2")], vec![Child::Opaque(5)]);
    let lifted = lift_element(build()).unwrap();
    assert!(!lifted.changed);
    assert_eq!(format!("{:?}", lifted.elem), format!("{:?}", build()));
}

#[test]
fn valueless_attribute_becomes_true() {
    let e = elem(
        "Thing",
        vec![
            marker(),
            AttrOrSpread::Attr(Attr { name: AttrName::Ident("on".to_string()), value: None }),
        ],
        vec![],
    );
    let out = lift_element(e).unwrap().elem;
    let props = serialize_entries(&out);
    assert!(matches!(
        &props[0],
        PropOrSpread::KeyValue(kv) if matches!(&kv.value, Expr::Lit(Lit::Bool(true)))
    ));
}

#[test]
fn spread_attribute_becomes_spread_entry() {
    let e = elem(
        "Thing",
        vec![marker(), AttrOrSpread::Spread(Expr::Ident("rest".to_string()))],
        vec![],
    );
    let out = lift_element(e).unwrap().elem;
    let props = serialize_entries(&out);
    assert!(matches!(
        &props[0],
        PropOrSpread::Spread(Expr::Ident(n)) if n == "rest"
    ));
}

#[test]
fn namespaced_attribute_key_is_joined() {
    let e = elem(
        "Thing",
        vec![
            marker(),
            AttrOrSpread::Attr(Attr {
                name: AttrName::Namespaced(NsName {
                    ns: "xml".to_string(),
                    name: "lang".to_string(),
                }),
                value: Some(AttrValue::Lit(Lit::Str("en".to_string()))),
            }),
        ],
        vec![],
    );
    let out = lift_element(e).unwrap().elem;
    let props = serialize_entries(&out);
    assert!(matches!(
        &props[0],
        PropOrSpread::KeyValue(kv) if matches!(&kv.key, PropName::Str(k) if k == "xml:lang")
    ));
}

#[test]
fn invalid_tag_name_becomes_string_literal() {
    let e = elem("my-thing", vec![marker()], vec![]);
    let out = lift_element(e).unwrap().elem;
    match &out.attrs[1] {
        AttrOrSpread::Attr(a) => {
            assert!(matches!(
                a.value.as_ref().unwrap(),
                AttrValue::Expr(Expr::Lit(Lit::Str(s))) if s == "my-thing"
            ));
        }
        other => panic!("unexpected attribute: {:?}", other),
    }
}

#[test]
fn member_tag_name_stays_a_member_chain() {
    let e = Element {
        name: ElemName::Member(vec!["UI".to_string(), "Card".to_string()]),
        attrs: vec![marker()],
        children: vec![],
        closing: false,
    };
    let out = lift_element(e).unwrap().elem;
    match &out.attrs[1] {
        AttrOrSpread::Attr(a) => {
            assert!(matches!(
                a.value.as_ref().unwrap(),
                AttrValue::Expr(Expr::Member(p)) if p == &vec!["UI".to_string(), "Card".to_string()]
            ));
        }
        other => panic!("unexpected attribute: {:?}", other),
    }
}

#[test]
fn marked_namespaced_element_is_refused() {
    let e = Element {
        name: ElemName::Namespaced(NsName { ns: "svg".to_string(), name: "use".to_string() }),
        attrs: vec![marker()],
        children: vec![],
        closing: false,
    };
    assert!(lift_element(e).is_none());
}

#[test]
fn three_marked_elements_one_import_pair() {
    // Three independently marked elements: lifting reports a single flag
    // and the module gains exactly one serializer import and one
    // deserializer-component import.
    let tree = elem(
        "Outer",
        vec![marker()],
        vec![
            Child::Elem(Box::new(elem("A", vec![marker()], vec![]))),
            Child::Opaque(1),
            Child::Elem(Box::new(elem(
                "B",
                vec![],
                vec![Child::Elem(Box::new(elem("C", vec![marker()], vec![])))],
            ))),
        ],
    );
    let lifted = lift_tree(tree).unwrap();
    assert!(lifted.changed);

    let items = vec![Item::Opaque(1), Item::Opaque(2)];
    let out = prepend_client_imports(items, lifted.changed);
    assert_eq!(out.len(), 4);
    let serializer_imports = out
        .iter()
        .filter(|it| match it {
            Item::Import(d) => {
                d.src == "next-superjson-plugin/tools"
                    && matches!(&d.specifiers[0], ImportSpec::Named(n) if n.local == "serialize")
            }
            _ => false,
        })
        .count();
    let component_imports = out
        .iter()
        .filter(|it| match it {
            Item::Import(d) => {
                d.src == "next-superjson-plugin/client"
                    && matches!(&d.specifiers[0], ImportSpec::DefaultImport(l) if l == "SuperJSONComponent")
            }
            _ => false,
        })
        .count();
    assert_eq!(serializer_imports, 1);
    assert_eq!(component_imports, 1);
}

#[test]
fn unlifted_module_gains_no_imports() {
    let tree = elem("div", vec![attr_num("a", "1")], vec![Child::Opaque(3)]);
    let lifted = lift_tree(tree).unwrap();
    assert!(!lifted.changed);
    let items = vec![Item::Opaque(1)];
    let out = prepend_client_imports(items, lifted.changed);
    assert_eq!(out.len(), 1);
    assert!(matches!(out[0], Item::Opaque(1)));
}

#[test]
fn nested_marked_child_is_lifted_first() {
    // The inner marked element is lifted independently, and its lifted form
    // appears inside the outer element's serialized attributes.
    let inner = elem("Inner", vec![marker(), attr_num("k", "3")], vec![]);
    let outer = elem(
        "Outer",
        vec![
            marker(),
            AttrOrSpread::Attr(Attr {
                name: AttrName::Ident("panel".to_string()),
                value: Some(AttrValue::Elem(Box::new(inner))),
            }),
        ],
        vec![],
    );
    let lifted = lift_tree(outer).unwrap();
    assert!(lifted.changed);
    let props = serialize_entries(&lifted.elem);
    match &props[0] {
        PropOrSpread::KeyValue(kv) => match &kv.value {
            Expr::JsxElement(b) => {
                assert!(matches!(&b.name, ElemName::Ident(n) if n == "SuperJSONComponent"));
            }
            other => panic!("unexpected value: {:?}", other),
        },
        other => panic!("unexpected entry: {:?}", other),
    }
}

#[test]
fn second_lift_finds_nothing() {
    let tree = elem(
        "Outer",
        vec![marker(), attr_num("a", "1")],
        vec![Child::Elem(Box::new(elem("A", vec![marker()], vec![])))],
    );
    let first = lift_tree(tree).unwrap();
    assert!(first.changed);
    let second = lift_tree(first.elem).unwrap();
    assert!(!second.changed);
}
