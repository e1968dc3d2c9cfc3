use mlang::ast::{Expression, Program, Statement};
use mlang::lexer::Lexer;
use mlang::module_loader::{
    collect_symbols, is_local, link_modules, module_package, rewrite_type_name, ModuleInfo,
    ModuleLoadError, RewriteContext, SymbolKind, SymbolMeta,
};
use mlang::parser::Parser;

fn parse(input: &str) -> Program {
    let lexer = Lexer::new(input);
    let mut parser = Parser::new(lexer);
    parser.parse_program().unwrap()
}

fn module(path: &str, source: &str, imports: Vec<&str>, is_entry: bool) -> ModuleInfo {
    let program = parse(source);
    let path = path.to_string();
    let (package, has_package_decl, has_export_decl) =
        module_package(&program, &path, is_entry).unwrap();
    let mut errors = Vec::new();
    let symbols = collect_symbols(&program, &path, &mut errors);
    assert!(errors.is_empty());
    ModuleInfo {
        path,
        package,
        program,
        local_imports: imports.into_iter().map(|s| s.to_string()).collect(),
        symbols,
        has_package_decl,
        has_export_decl,
        is_entry,
    }
}

#[test]
fn linking_resolves_local_import_and_mangles() {
    let util = module(
        "/p/util.ml",
        "atote util;\npay loke add(kain a, kain b) -> kain {\n    pyan a + b;\n}\n",
        vec![],
        false,
    );
    let main = module(
        "/p/main.ml",
        "yu \"./util\";\nloke main() -> kain {\n    kain x = util.add(1, 2);\n    pyan x;\n}\n",
        vec!["/p/util.ml"],
        true,
    );
    let loaded = match link_modules(&vec![util, main]) {
        Ok(l) => l,
        Err(_) => panic!("link failed"),
    };
    let dbg = format!("{:?}", loaded.program.statements);
    assert!(dbg.contains("util__add"));
    assert!(dbg.contains("name: \"main\""));
    assert!(loaded.uses_local_modules);
    // the local import is left out, the function keeps its parameters local
    assert_eq!(loaded.program.statements.len(), 2);
    assert!(dbg.contains("Identifier(\"a\")"));
}

#[test]
fn linking_reports_unexported_symbol() {
    let util = module(
        "/p/util.ml",
        "atote util;\nloke hidden() -> kain {\n    pyan 1;\n}\n",
        vec![],
        false,
    );
    let main = module(
        "/p/main.ml",
        "yu \"./util\";\nloke main() -> kain {\n    pyan util.hidden();\n}\n",
        vec!["/p/util.ml"],
        true,
    );
    match link_modules(&vec![util, main]) {
        Ok(_) => panic!("expected an error"),
        Err(es) => {
            assert_eq!(es.len(), 1);
            assert_eq!(es[0].message, "Symbol `hidden` is not exported from package `util`");
            assert_eq!(es[0].to_text(), "/p/main.ml: Symbol `hidden` is not exported from package `util`");
        }
    }
}

#[test]
fn single_entry_module_is_not_local() {
    let main = module("/p/main.ml", "loke main() -> kain {\n    pyan 0;\n}\n", vec![], true);
    let loaded = match link_modules(&vec![main]) {
        Ok(l) => l,
        Err(_) => panic!("link failed"),
    };
    assert!(!loaded.uses_local_modules);
    let dbg = format!("{:?}", loaded.program.statements);
    assert!(dbg.contains("name: \"main\""));
}

#[test]
fn package_rules() {
    let p = parse("atote a;\natote b;\n");
    let path = "/x.ml".to_string();
    match module_package(&p, &path, false) {
        Err(e) => assert_eq!(e.message, "Multiple `atote` declarations"),
        Ok(_) => panic!("expected an error"),
    }
    let p = parse("kain x = 1;\n");
    match module_package(&p, &path, false) {
        Err(e) => assert_eq!(e.message, "Imported module must declare `atote <name>;`"),
        Ok(_) => panic!("expected an error"),
    }
    match module_package(&p, &path, true) {
        Ok((pkg, decl, export)) => {
            assert_eq!(pkg, "main");
            assert!(!decl);
            assert!(!export);
        }
        Err(_) => panic!("expected the main package"),
    }
}

#[test]
fn duplicate_symbols_are_reported() {
    let p = parse("kain x = 1;\nkain x = 2;\nloke f() -> kain {\n    pyan 0;\n}\n");
    let mut errors = Vec::new();
    let syms = collect_symbols(&p, &"/m.ml".to_string(), &mut errors);
    assert_eq!(syms.len(), 2);
    assert_eq!(errors.len(), 1);
    assert_eq!(errors[0].message, "Duplicate top-level symbol `x`");
    assert_eq!(syms[1].1.kind, SymbolKind::Function);
}

#[test]
fn locals_and_type_names() {
    let scopes = vec![vec!["a".to_string()], vec!["b".to_string()]];
    assert!(is_local(&scopes, "b"));
    assert!(!is_local(&scopes, "c"));
    let ctx = RewriteContext {
        path: "/m.ml".to_string(),
        local_mangles: vec![("Point".to_string(), "geo__Point".to_string())],
        import_aliases: vec![("shapes".to_string(), "shapes".to_string())],
        exports: vec![(
            "shapes".to_string(),
            vec![("Circle".to_string(), SymbolMeta { exported: true, kind: SymbolKind::Struct })],
        )],
        mangles: vec![("shapes".to_string(), "Circle".to_string(), "shapes__Circle".to_string())],
    };
    let mut errors: Vec<ModuleLoadError> = Vec::new();
    assert_eq!(rewrite_type_name(&"Point".to_string(), &ctx, &mut errors), "geo__Point");
    assert_eq!(rewrite_type_name(&"shapes.Circle".to_string(), &ctx, &mut errors), "shapes__Circle");
    assert_eq!(rewrite_type_name(&"shapes.Square".to_string(), &ctx, &mut errors), "shapes.Square");
    assert_eq!(errors.len(), 1);
    assert_eq!(errors[0].message, "Package `shapes` has no symbol `Square`");
    let e = ModuleLoadError { message: "m".to_string(), path: None };
    assert_eq!(e.to_text(), "m");
    let _ = Expression::NilLiteral;
    let _ = Statement::Break;
}
