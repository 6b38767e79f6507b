use next_superjson::ast::{
    AssignStmt, Binding, Decl, DefaultDecl, ExportNamedSpec, ExportSpec, Expr, FnDecl, FnExpr,
    ImportDecl, ImportNamed, ImportSpec, Item, Lit, ModName, NamedExport, Stmt, VarDecl,
    VarDeclarator, VarKind,
};
use next_superjson::ast::{ClassDecl, ClassExpr, ClassMember, ClassMethod, MemberKey};
use next_superjson::page::transform_page;
use next_superjson::Config;

fn cfg(excluded: &[&str]) -> Config {
    Config { excluded: excluded.iter().map(|s| s.to_string()).collect() }
}

fn ident(s: &str) -> Expr {
    Expr::Ident(s.to_string())
}

fn export_fn(name: &str, f: u64) -> Item {
    Item::ExportDecl(Decl::Fn(FnDecl { ident: name.to_string(), function: f }))
}

fn export_default_fn(name: &str, f: u64) -> Item {
    Item::ExportDefaultDecl(DefaultDecl::Fn(FnExpr { ident: Some(name.to_string()), function: f }))
}

fn named_export(orig: &str, exported: Option<&str>, src: Option<&str>) -> Item {
    Item::ExportNamed(NamedExport {
        specifiers: vec![ExportSpec::Named(ExportNamedSpec {
            orig: ModName::Ident(orig.to_string()),
            exported: exported.map(|e| ModName::Ident(e.to_string())),
        })],
        src: src.map(|s| s.to_string()),
    })
}

fn import_named(imported: Option<&str>, local: &str, src: &str) -> Item {
    Item::Import(ImportDecl {
        specifiers: vec![ImportSpec::Named(ImportNamed {
            local: local.to_string(),
            imported: imported.map(|i| ModName::Ident(i.to_string())),
        })],
        src: src.to_string(),
    })
}

/// Is `it` `import { exported as local } from "src"`?
fn is_import_of(it: &Item, exported: &str, local: &str, src: &str) -> bool {
    match it {
        Item::Import(d) => {
            d.src == src
                && d.specifiers.len() == 1
                && match &d.specifiers[0] {
                    ImportSpec::Named(n) => {
                        n.local == local
                            && match &n.imported {
                                Some(ModName::Ident(i)) => i == exported,
                                _ => false,
                            }
                    }
                    _ => false,
                }
        }
        _ => false,
    }
}

/// Is `e` the call `callee(Ident(arg0), [excluded...])`?
fn is_call2_ident(e: &Expr, callee: &str, arg0: &str, excluded: &[&str]) -> bool {
    match e {
        Expr::Call(c) => {
            matches!(&*c.callee, Expr::Ident(n) if n == callee)
                && c.args.len() == 2
                && !c.args[0].spread
                && matches!(&c.args[0].expr, Expr::Ident(a) if a == arg0)
                && is_excluded(&c.args[1].expr, excluded)
        }
        _ => false,
    }
}

fn is_excluded(e: &Expr, excluded: &[&str]) -> bool {
    match e {
        Expr::Array(elems) => {
            elems.len() == excluded.len()
                && elems.iter().zip(excluded.iter()).all(|(el, want)| {
                    !el.spread && matches!(&el.expr, Expr::Lit(Lit::Str(s)) if s == want)
                })
        }
        _ => false,
    }
}

#[test]
fn wraps_inline_exports() {
    // The concrete scenario: a data-fetch function and a default page.
    let items = vec![export_fn("getStaticProps", 1), export_default_fn("Page", 2)];
    let out = transform_page(items, &cfg(&["token"]));
    assert_eq!(out.len(), 5);
    assert!(is_import_of(
        &out[0],
        "withSuperJSONProps",
        "_withSuperJSONProps",
        "next-superjson-plugin/tools"
    ));
    assert!(is_import_of(
        &out[1],
        "withSuperJSONPage",
        "_withSuperJSONPage",
        "next-superjson-plugin/tools"
    ));
    // const getStaticProps = _withSuperJSONProps(async function ..., ["token"]);
    match &out[2] {
        Item::ExportDecl(Decl::Var(vd)) => {
            assert!(matches!(vd.kind, VarKind::Const));
            assert_eq!(vd.decls.len(), 1);
            assert!(matches!(&vd.decls[0].name, Binding::Ident(n) if n == "getStaticProps"));
            match vd.decls[0].init.as_ref().unwrap() {
                Expr::Call(c) => {
                    assert!(matches!(&*c.callee, Expr::Ident(n) if n == "_withSuperJSONProps"));
                    assert_eq!(c.args.len(), 2);
                    assert!(matches!(
                        &c.args[0].expr,
                        Expr::Func(FnExpr { ident: None, function: 1 })
                    ));
                    assert!(is_excluded(&c.args[1].expr, &["token"]));
                }
                other => panic!("unexpected init: {:?}", other),
            }
        }
        other => panic!("unexpected item: {:?}", other),
    }
    // Page is declared, then exported as _withSuperJSONPage(Page).
    assert!(matches!(
        &out[3],
        Item::Stmt(Stmt::Decl(Decl::Fn(fd))) if fd.ident == "Page" && fd.function == 2
    ));
    match &out[4] {
        Item::ExportDefaultExpr(e) => match e {
            Expr::Call(c) => {
                assert!(matches!(&*c.callee, Expr::Ident(n) if n == "_withSuperJSONPage"));
                assert_eq!(c.args.len(), 1);
                assert!(matches!(&c.args[0].expr, Expr::Ident(n) if n == "Page"));
            }
            other => panic!("unexpected default export: {:?}", other),
        },
        other => panic!("unexpected item: {:?}", other),
    }
}

#[test]
fn running_twice_equals_running_once() {
    let build = || vec![export_fn("getStaticProps", 1), export_default_fn("Page", 2)];
    let config = cfg(&["token"]);
    let once = transform_page(build(), &config);
    let twice = transform_page(transform_page(build(), &config), &config);
    assert_eq!(format!("{:?}", once), format!("{:?}", twice));
}

#[test]
fn running_twice_on_bridged_output() {
    let build = || {
        vec![
            import_named(Some("f"), "g", "m"),
            named_export("g", Some("getStaticProps"), None),
            export_default_fn("Page", 9),
        ]
    };
    let config = cfg(&[]);
    let once = transform_page(build(), &config);
    let twice = transform_page(transform_page(build(), &config), &config);
    assert_eq!(format!("{:?}", once), format!("{:?}", twice));
}

#[test]
fn module_without_recognized_exports_is_unchanged() {
    let build = || {
        vec![
            import_named(None, "x", "m"),
            Item::Stmt(Stmt::Decl(Decl::Fn(FnDecl { ident: "helper".to_string(), function: 3 }))),
            Item::Opaque(7),
        ]
    };
    let out = transform_page(build(), &cfg(&["a"]));
    assert_eq!(format!("{:?}", out), format!("{:?}", build()));
}

#[test]
fn data_fetch_without_default_is_never_wrapped() {
    // The pairing rule: no default export, so the data-fetch export stays.
    let build = || vec![export_fn("getServerSideProps", 4)];
    let out = transform_page(build(), &cfg(&[]));
    assert_eq!(format!("{:?}", out), format!("{:?}", build()));
}

#[test]
fn default_without_data_fetch_is_never_wrapped() {
    let build = || vec![export_default_fn("Page", 4)];
    let out = transform_page(build(), &cfg(&[]));
    assert_eq!(format!("{:?}", out), format!("{:?}", build()));
}

#[test]
fn bridges_re_exported_import() {
    // import { f as g } from "m"; export { g as getStaticProps };
    // plus a default export so the pairing rule lets the rewrite run.
    let items = vec![
        import_named(Some("f"), "g", "m"),
        named_export("g", Some("getStaticProps"), None),
        export_default_fn("Page", 9),
    ];
    let out = transform_page(items, &cfg(&[]));
    // props import, page import, renamed import, bridge const, updated
    // export, Page decl, wrapped default export
    assert_eq!(out.len(), 7);
    assert!(is_import_of(&out[2], "f", "_NEXT_SUPERJSON_IMPORTED_PROPS", "m"));
    match &out[3] {
        Item::Stmt(Stmt::Decl(Decl::Var(vd))) => {
            assert!(matches!(vd.kind, VarKind::Const));
            assert!(
                matches!(&vd.decls[0].name, Binding::Ident(n) if n == "_NEXT_SUPERJSON_ORIGINAL_PROPS")
            );
            assert!(is_call2_ident(
                vd.decls[0].init.as_ref().unwrap(),
                "_withSuperJSONProps",
                "_NEXT_SUPERJSON_IMPORTED_PROPS",
                &[]
            ));
        }
        other => panic!("unexpected item: {:?}", other),
    }
    match &out[4] {
        Item::ExportNamed(ne) => {
            assert!(ne.src.is_none());
            assert_eq!(ne.specifiers.len(), 1);
            match &ne.specifiers[0] {
                ExportSpec::Named(en) => {
                    assert!(
                        matches!(&en.orig, ModName::Ident(o) if o == "_NEXT_SUPERJSON_ORIGINAL_PROPS")
                    );
                    assert!(
                        matches!(&en.exported, Some(ModName::Ident(e)) if e == "getStaticProps")
                    );
                }
                other => panic!("unexpected specifier: {:?}", other),
            }
        }
        other => panic!("unexpected item: {:?}", other),
    }
}

#[test]
fn splits_re_export_with_source() {
    // export { x as getServerSideProps } from "src";
    let items = vec![
        named_export("x", Some("getServerSideProps"), Some("src")),
        Item::ExportDefaultExpr(ident("App")),
    ];
    let out = transform_page(items, &cfg(&["k"]));
    // props import, page import, bridge import, bridge const, new export,
    // wrapped default
    assert_eq!(out.len(), 6);
    assert!(is_import_of(&out[2], "x", "_NEXT_SUPERJSON_IMPORTED_PROPS", "src"));
    match &out[4] {
        Item::ExportNamed(ne) => {
            assert!(ne.src.is_none());
            match &ne.specifiers[0] {
                ExportSpec::Named(en) => {
                    assert!(
                        matches!(&en.exported, Some(ModName::Ident(e)) if e == "getServerSideProps")
                    );
                }
                other => panic!("unexpected specifier: {:?}", other),
            }
        }
        other => panic!("unexpected item: {:?}", other),
    }
    match &out[5] {
        Item::ExportDefaultExpr(Expr::Call(c)) => {
            assert!(matches!(&*c.callee, Expr::Ident(n) if n == "_withSuperJSONPage"));
            assert!(matches!(&c.args[0].expr, Expr::Ident(n) if n == "App"));
        }
        other => panic!("unexpected item: {:?}", other),
    }
}

#[test]
fn pass_through_re_export_is_skipped() {
    // export { getStaticProps } from "x" already forwards an untouched
    // value; only the default side is wrapped.
    let items = vec![
        named_export("getStaticProps", None, Some("x")),
        Item::ExportDefaultExpr(ident("App")),
    ];
    let out = transform_page(items, &cfg(&[]));
    assert_eq!(out.len(), 3);
    assert!(is_import_of(
        &out[0],
        "withSuperJSONPage",
        "_withSuperJSONPage",
        "next-superjson-plugin/tools"
    ));
    assert!(matches!(&out[1], Item::ExportNamed(_)));
    assert!(matches!(&out[2], Item::ExportDefaultExpr(Expr::Call(_))));
}

#[test]
fn default_re_export_is_skipped() {
    // export { default } from "x" keeps the re-exported page identity;
    // only the data-fetch side is wrapped.
    let items = vec![
        export_fn("getStaticProps", 1),
        named_export("default", None, Some("x")),
    ];
    let out = transform_page(items, &cfg(&[]));
    assert_eq!(out.len(), 3);
    assert!(is_import_of(
        &out[0],
        "withSuperJSONProps",
        "_withSuperJSONProps",
        "next-superjson-plugin/tools"
    ));
    assert!(matches!(&out[1], Item::ExportDecl(Decl::Var(_))));
    assert!(matches!(&out[2], Item::ExportNamed(_)));
}

#[test]
fn import_under_recognized_name_is_skipped() {
    // import { getStaticProps } from "lib"; export { getStaticProps };
    // the binding is already the real implementation.
    let items = vec![
        import_named(None, "getStaticProps", "lib"),
        named_export("getStaticProps", None, None),
        Item::ExportDefaultExpr(ident("App")),
    ];
    let out = transform_page(items, &cfg(&[]));
    assert_eq!(out.len(), 4);
    assert!(is_import_of(
        &out[0],
        "withSuperJSONPage",
        "_withSuperJSONPage",
        "next-superjson-plugin/tools"
    ));
    assert!(matches!(&out[1], Item::Import(_)));
    assert!(matches!(&out[2], Item::ExportNamed(_)));
}

#[test]
fn wraps_assignment_site() {
    // getStaticProps = value; export { getStaticProps };
    let items = vec![
        Item::Stmt(Stmt::Assign(AssignStmt {
            target: "getStaticProps".to_string(),
            plain: true,
            value: ident("impl0"),
        })),
        named_export("getStaticProps", None, None),
        Item::ExportDefaultExpr(ident("App")),
    ];
    let out = transform_page(items, &cfg(&["s"]));
    assert_eq!(out.len(), 5);
    match &out[2] {
        Item::Stmt(Stmt::Assign(a)) => {
            assert_eq!(a.target, "getStaticProps");
            assert!(a.plain);
            assert!(matches!(&a.value, Expr::Call(_)));
        }
        other => panic!("unexpected item: {:?}", other),
    }
    // the specifier itself is untouched
    assert!(matches!(&out[3], Item::ExportNamed(ne)
        if matches!(&ne.specifiers[0], ExportSpec::Named(en)
            if matches!(&en.orig, ModName::Ident(o) if o == "getStaticProps"))));
}

#[test]
fn wraps_const_declarator_site() {
    // const a = 1, getStaticProps = f; export { getStaticProps }; with the
    // untouched declarator kept in place.
    let items = vec![
        Item::ExportDefaultExpr(ident("App")),
        Item::Stmt(Stmt::Decl(Decl::Var(VarDecl {
            kind: VarKind::Const,
            decls: vec![
                VarDeclarator {
                    name: Binding::Ident("a".to_string()),
                    init: Some(Expr::Lit(Lit::Num("1".to_string()))),
                },
                VarDeclarator {
                    name: Binding::Ident("getStaticProps".to_string()),
                    init: Some(ident("f")),
                },
            ],
        }))),
        named_export("getStaticProps", None, None),
    ];
    let out = transform_page(items, &cfg(&[]));
    assert_eq!(out.len(), 5);
    match &out[3] {
        Item::Stmt(Stmt::Decl(Decl::Var(vd))) => {
            assert_eq!(vd.decls.len(), 2);
            assert!(matches!(
                vd.decls[0].init.as_ref().unwrap(),
                Expr::Lit(Lit::Num(n)) if n == "1"
            ));
            assert!(matches!(vd.decls[1].init.as_ref().unwrap(), Expr::Call(_)));
        }
        other => panic!("unexpected item: {:?}", other),
    }
}

#[test]
fn wraps_class_init_props_method() {
    // The class-member pass runs even without a default export.
    let items = vec![Item::Stmt(Stmt::Decl(Decl::Class(ClassDecl {
        ident: "App".to_string(),
        members: vec![ClassMember::Method(ClassMethod {
            key: MemberKey::Ident("getInitialProps".to_string()),
            function: 11,
            is_static: true,
        })],
        shell: 3,
    })))];
    let out = transform_page(items, &cfg(&["x"]));
    assert_eq!(out.len(), 2);
    assert!(is_import_of(
        &out[0],
        "withSuperJSONInitProps",
        "_withSuperJSONInitProps",
        "next-superjson-plugin/tools"
    ));
    match &out[1] {
        Item::Stmt(Stmt::Decl(Decl::Class(cd))) => match &cd.members[0] {
            ClassMember::Prop(p) => {
                assert!(matches!(&p.key, MemberKey::Ident(k) if k == "getInitialProps"));
                assert!(p.is_static);
                match p.value.as_ref().unwrap() {
                    Expr::Call(c) => {
                        assert!(
                            matches!(&*c.callee, Expr::Ident(n) if n == "_withSuperJSONInitProps")
                        );
                        assert!(matches!(
                            &c.args[0].expr,
                            Expr::Func(FnExpr { ident: None, function: 11 })
                        ));
                    }
                    other => panic!("unexpected member value: {:?}", other),
                }
            }
            other => panic!("unexpected member: {:?}", other),
        },
        other => panic!("unexpected item: {:?}", other),
    }
}

#[test]
fn compound_assignment_is_not_a_site() {
    // getStaticProps += f is not a plain assignment, so the reference
    // cannot be resolved and the module is left alone.
    let build = || {
        vec![
            Item::Stmt(Stmt::Assign(AssignStmt {
                target: "getStaticProps".to_string(),
                plain: false,
                value: ident("f"),
            })),
            named_export("getStaticProps", None, None),
        ]
    };
    let out = transform_page(build(), &cfg(&[]));
    assert_eq!(format!("{:?}", out), format!("{:?}", build()));
}

#[test]
fn anonymous_default_function_is_wrapped_inline() {
    let items = vec![
        export_fn("getStaticProps", 1),
        Item::ExportDefaultDecl(DefaultDecl::Fn(FnExpr { ident: None, function: 5 })),
    ];
    let out = transform_page(items, &cfg(&[]));
    assert_eq!(out.len(), 4);
    match &out[3] {
        Item::ExportDefaultExpr(Expr::Call(c)) => {
            assert!(matches!(&*c.callee, Expr::Ident(n) if n == "_withSuperJSONPage"));
            assert!(matches!(
                &c.args[0].expr,
                Expr::Func(FnExpr { ident: None, function: 5 })
            ));
        }
        other => panic!("unexpected item: {:?}", other),
    }
}

#[test]
fn colliding_bridges_leave_the_module_unwrapped() {
    // Both targets would rewrite the same import statement; a half-rewritten
    // item being worse than an unwrapped one, nothing is wrapped.
    let build = || {
        vec![
            Item::Import(ImportDecl {
                specifiers: vec![
                    ImportSpec::Named(ImportNamed {
                        local: "x".to_string(),
                        imported: Some(ModName::Ident("a".to_string())),
                    }),
                    ImportSpec::Named(ImportNamed {
                        local: "y".to_string(),
                        imported: Some(ModName::Ident("b".to_string())),
                    }),
                ],
                src: "m".to_string(),
            }),
            named_export("x", Some("getStaticProps"), None),
            named_export("y", Some("default"), None),
        ]
    };
    let out = transform_page(build(), &cfg(&[]));
    assert_eq!(format!("{:?}", out), format!("{:?}", build()));
}

#[test]
fn default_class_with_init_props_is_split_and_wrapped() {
    // export default class Page { static getInitialProps() {} } together
    // with a data-fetch export: the member is wrapped, the class is
    // declared, and the default export goes through the page adapter.
    let items = vec![
        export_fn("getStaticProps", 1),
        Item::ExportDefaultDecl(DefaultDecl::Class(ClassExpr {
            ident: Some("Page".to_string()),
            members: vec![ClassMember::Method(ClassMethod {
                key: MemberKey::Ident("getInitialProps".to_string()),
                function: 21,
                is_static: true,
            })],
            shell: 4,
        })),
    ];
    let out = transform_page(items, &cfg(&[]));
    // props import, init import, page import, wrapped const, class decl,
    // wrapped default export
    assert_eq!(out.len(), 6);
    assert!(is_import_of(
        &out[1],
        "withSuperJSONInitProps",
        "_withSuperJSONInitProps",
        "next-superjson-plugin/tools"
    ));
    match &out[4] {
        Item::Stmt(Stmt::Decl(Decl::Class(cd))) => {
            assert_eq!(cd.ident, "Page");
            assert_eq!(cd.shell, 4);
            assert!(matches!(&cd.members[0], ClassMember::Prop(p)
                if matches!(p.value.as_ref().unwrap(), Expr::Call(_))));
        }
        other => panic!("unexpected item: {:?}", other),
    }
    match &out[5] {
        Item::ExportDefaultExpr(Expr::Call(c)) => {
            assert!(matches!(&*c.callee, Expr::Ident(n) if n == "_withSuperJSONPage"));
            assert!(matches!(&c.args[0].expr, Expr::Ident(n) if n == "Page"));
        }
        other => panic!("unexpected item: {:?}", other),
    }
}

#[test]
fn wraps_class_expression_initializer() {
    // const P = class { static getInitialProps() {} };  The class-member
    // pass reaches the class expression behind the declarator.
    let items = vec![Item::Stmt(Stmt::Decl(Decl::Var(VarDecl {
        kind: VarKind::Const,
        decls: vec![VarDeclarator {
            name: Binding::Ident("P".to_string()),
            init: Some(Expr::Class(ClassExpr {
                ident: None,
                members: vec![ClassMember::Method(ClassMethod {
                    key: MemberKey::Ident("getInitialProps".to_string()),
                    function: 31,
                    is_static: true,
                })],
                shell: 5,
            })),
        }],
    })))];
    let out = transform_page(items, &cfg(&["k"]));
    assert_eq!(out.len(), 2);
    assert!(is_import_of(
        &out[0],
        "withSuperJSONInitProps",
        "_withSuperJSONInitProps",
        "next-superjson-plugin/tools"
    ));
    match &out[1] {
        Item::Stmt(Stmt::Decl(Decl::Var(vd))) => {
            match vd.decls[0].init.as_ref().unwrap() {
                Expr::Class(ce) => {
                    assert_eq!(ce.shell, 5);
                    match &ce.members[0] {
                        ClassMember::Prop(p) => {
                            assert!(p.is_static);
                            match p.value.as_ref().unwrap() {
                                Expr::Call(c) => {
                                    assert!(matches!(
                                        &*c.callee,
                                        Expr::Ident(n) if n == "_withSuperJSONInitProps"
                                    ));
                                }
                                other => panic!("unexpected member value: {:?}", other),
                            }
                        }
                        other => panic!("unexpected member: {:?}", other),
                    }
                }
                other => panic!("unexpected initializer: {:?}", other),
            }
        }
        other => panic!("unexpected item: {:?}", other),
    }
}
