use next_superjson::ast::{
    Binding, Decl, Expr, FnDecl, ImportSpec, Item, Lit, ModName, Stmt, VarKind,
};
use next_superjson::classify::classify_path;
use next_superjson::utils::{
    excluded_arg, superjson_import_decl, temp_import_item, temp_props_item, DeclUtil, Wrapper,
};
use next_superjson::{Config, DirType};

#[test]
fn classifies_pages_directory() {
    assert_eq!(classify_path("/w", "/w/src/pages/index.js"), Some(DirType::Page));
}

#[test]
fn classifies_app_directory() {
    assert_eq!(classify_path("/w", "/w/app/page.js"), Some(DirType::App));
}

#[test]
fn app_nested_under_src_is_app_style() {
    assert_eq!(classify_path("/w", "/w/src/app/layout.js"), Some(DirType::App));
}

#[test]
fn neither_segment_passes_through() {
    assert_eq!(classify_path("/w", "/w/components/button.js"), None);
}

#[test]
fn node_modules_is_excluded() {
    assert_eq!(classify_path("/w", "/w/node_modules/pkg/pages/x.js"), None);
}

#[test]
fn node_modules_must_be_a_whole_segment() {
    assert_eq!(classify_path("/w", "/w/pages/node_modules.js"), Some(DirType::Page));
}

#[test]
fn node_modules_after_app_still_excludes() {
    assert_eq!(classify_path("/w", "/w/app/node_modules/pkg/x.js"), None);
}

#[test]
fn node_modules_after_pages_still_excludes() {
    assert_eq!(classify_path("/w", "/w/pages/node_modules/pkg/x.js"), None);
}

#[test]
fn pages_outranks_app() {
    assert_eq!(classify_path("/w", "/w/app/pages/x.js"), Some(DirType::Page));
}

#[test]
fn path_outside_root_is_untouched() {
    assert_eq!(classify_path("/w/project", "/elsewhere/pages/x.js"), None);
}

#[test]
fn backslash_separators_are_normalized() {
    assert_eq!(classify_path("C:\\w", "C:\\w\\pages\\index.js"), Some(DirType::Page));
}

#[test]
fn default_config_is_empty() {
    let c = Config::default();
    assert!(c.excluded.is_empty());
}

#[test]
fn builds_adapter_import() {
    let it = superjson_import_decl(&"withSuperJSONProps".to_string());
    match it {
        Item::Import(d) => {
            assert_eq!(d.src, "next-superjson-plugin/tools");
            assert_eq!(d.specifiers.len(), 1);
            match &d.specifiers[0] {
                ImportSpec::Named(n) => {
                    assert_eq!(n.local, "_withSuperJSONProps");
                    assert!(
                        matches!(&n.imported, Some(ModName::Ident(i)) if i == "withSuperJSONProps")
                    );
                }
                other => panic!("unexpected specifier: {:?}", other),
            }
        }
        other => panic!("unexpected item: {:?}", other),
    }
}

#[test]
fn builds_bridging_import() {
    let it = temp_import_item(
        ModName::Ident("x".to_string()),
        "_local".to_string(),
        &"mod".to_string(),
    );
    match it {
        Item::Import(d) => {
            assert_eq!(d.src, "mod");
            match &d.specifiers[0] {
                ImportSpec::Named(n) => {
                    assert_eq!(n.local, "_local");
                    assert!(matches!(&n.imported, Some(ModName::Ident(i)) if i == "x"));
                }
                other => panic!("unexpected specifier: {:?}", other),
            }
        }
        other => panic!("unexpected item: {:?}", other),
    }
}

#[test]
fn builds_bridging_constant() {
    let excluded = vec!["a".to_string()];
    let it = temp_props_item(excluded_arg(&excluded));
    match it {
        Item::Stmt(Stmt::Decl(Decl::Var(vd))) => {
            assert!(matches!(vd.kind, VarKind::Const));
            assert!(
                matches!(&vd.decls[0].name, Binding::Ident(n) if n == "_NEXT_SUPERJSON_ORIGINAL_PROPS")
            );
            match vd.decls[0].init.as_ref().unwrap() {
                Expr::Call(c) => {
                    assert!(matches!(&*c.callee, Expr::Ident(n) if n == "_withSuperJSONProps"));
                    assert!(matches!(
                        &c.args[0].expr,
                        Expr::Ident(n) if n == "_NEXT_SUPERJSON_IMPORTED_PROPS"
                    ));
                }
                other => panic!("unexpected init: {:?}", other),
            }
        }
        other => panic!("unexpected item: {:?}", other),
    }
}

#[test]
fn excluded_arg_spells_the_list() {
    let excluded = vec!["a".to_string(), "b".to_string()];
    let arg = excluded_arg(&excluded);
    assert!(!arg.spread);
    match arg.expr {
        Expr::Array(elems) => {
            assert_eq!(elems.len(), 2);
            assert!(matches!(&elems[0].expr, Expr::Lit(Lit::Str(s)) if s == "a"));
            assert!(matches!(&elems[1].expr, Expr::Lit(Lit::Str(s)) if s == "b"));
        }
        other => panic!("unexpected expression: {:?}", other),
    }
}

#[test]
fn wrap_page_takes_one_argument() {
    let wrapped = Expr::Ident("Page".to_string()).wrap_page();
    match wrapped {
        Expr::Call(c) => {
            assert!(matches!(&*c.callee, Expr::Ident(n) if n == "_withSuperJSONPage"));
            assert_eq!(c.args.len(), 1);
        }
        other => panic!("unexpected expression: {:?}", other),
    }
}

#[test]
fn wrap_init_props_takes_the_excluded_list() {
    let excluded: Vec<String> = vec![];
    let wrapped = Expr::Ident("v".to_string()).wrap_init_props(excluded_arg(&excluded));
    match wrapped {
        Expr::Call(c) => {
            assert!(matches!(&*c.callee, Expr::Ident(n) if n == "_withSuperJSONInitProps"));
            assert_eq!(c.args.len(), 2);
        }
        other => panic!("unexpected expression: {:?}", other),
    }
}

#[test]
fn function_declaration_becomes_wrapped_constant() {
    let excluded: Vec<String> = vec!["z".to_string()];
    let fd = FnDecl { ident: "getStaticProps".to_string(), function: 8 };
    let d = fd.as_wrapped_var_decl(excluded_arg(&excluded));
    match d {
        Decl::Var(vd) => {
            assert!(matches!(vd.kind, VarKind::Const));
            assert!(matches!(&vd.decls[0].name, Binding::Ident(n) if n == "getStaticProps"));
            match vd.decls[0].init.as_ref().unwrap() {
                Expr::Call(c) => {
                    assert!(matches!(&*c.callee, Expr::Ident(n) if n == "_withSuperJSONProps"));
                    assert!(matches!(&c.args[0].expr, Expr::Func(fe) if fe.function == 8));
                }
                other => panic!("unexpected init: {:?}", other),
            }
        }
        other => panic!("unexpected declaration: {:?}", other),
    }
}
