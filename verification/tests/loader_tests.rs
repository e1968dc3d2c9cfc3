use mlang::loader::{import_route, parse_module_source, ImportRoute, LoadState, VisitStep};

fn s(x: &str) -> String {
    x.to_string()
}

#[test]
fn visiting_twice_is_a_cycle_until_finished() {
    let mut state = LoadState::new();
    assert_eq!(state.begin_visit(&s("/p/a.ml")), VisitStep::Read);
    assert_eq!(state.begin_visit(&s("/p/a.ml")), VisitStep::Cycle);
    assert_eq!(state.errors.len(), 1);
    assert_eq!(state.errors[0].message, "Import cycle detected");
    assert_eq!(state.errors[0].path.as_deref(), Some("/p/a.ml"));
}

#[test]
fn modules_are_registered_finished_and_linked() {
    let mut state = LoadState::new();
    let util_path = s("/p/util.ml");
    let main_path = s("/p/main.ml");
    assert_eq!(state.begin_visit(&main_path), VisitStep::Read);
    let main_src = "yu \"./util\";\nloke main() -> kain {\n    kain x = util.add(1, 2);\n    pyan x;\n}\n";
    let main_prog = parse_module_source(main_src, &main_path).ok().unwrap();
    let main_mod = state.register_module(&main_path, main_prog, true).unwrap();
    assert_eq!(main_mod.package, "main");
    assert_eq!(main_mod.imports, vec![s("./util")]);

    assert_eq!(state.begin_visit(&util_path), VisitStep::Read);
    let util_src = "atote util;\npay loke add(kain a, kain b) -> kain {\n    pyan a + b;\n}\n";
    let util_prog = parse_module_source(util_src, &util_path).ok().unwrap();
    let util_mod = state.register_module(&util_path, util_prog, false).unwrap();
    assert_eq!(util_mod.package, "util");
    assert!(util_mod.has_package_decl && util_mod.has_export_decl);
    assert!(state.finish_visit(util_path.clone(), util_mod, vec![], false));
    assert_eq!(state.begin_visit(&util_path), VisitStep::Skip);
    assert!(state.finish_visit(main_path.clone(), main_mod, vec![util_path.clone()], true));
    assert_eq!(state.modules.len(), 2);
    assert_eq!(state.modules[0].package, "util");

    let loaded = state.into_result().ok().unwrap();
    assert!(loaded.uses_local_modules);
    let dbg = format!("{:?}", loaded.program.statements);
    assert!(dbg.contains("util__add"));
}

#[test]
fn package_errors_are_reported() {
    let mut state = LoadState::new();
    let lib = parse_module_source("loke f() -> kain {\n    pyan 0;\n}\n", &s("/p/lib.ml")).ok().unwrap();
    assert!(state.register_module(&s("/p/lib.ml"), lib, false).is_none());
    assert_eq!(state.errors[0].message, "Imported module must declare `atote <name>;`");

    let mut state = LoadState::new();
    let a = parse_module_source("atote util;\n", &s("/p/a.ml")).ok().unwrap();
    let b = parse_module_source("atote util;\n", &s("/p/b.ml")).ok().unwrap();
    let a_mod = state.register_module(&s("/p/a.ml"), a, false).unwrap();
    assert!(state.register_module(&s("/p/b.ml"), b, false).is_none());
    assert_eq!(state.errors[0].message, "Duplicate package `util`");
    assert_eq!(state.errors[0].path.as_deref(), Some("/p/b.ml"));
    assert!(!state.finish_visit(s("/p/a.ml"), a_mod, vec![], false));
    assert!(state.modules.is_empty());
    let errs = state.into_result().err().unwrap();
    assert_eq!(errs.len(), 1);
}

#[test]
fn syntax_errors_name_the_file() {
    let errs = parse_module_source("kain = ;\n", &s("/p/bad.ml")).err().unwrap();
    assert!(!errs.is_empty());
    assert!(errs[0].message.starts_with("Syntax error: [1:"));
    assert_eq!(errs[0].path.as_deref(), Some("/p/bad.ml"));
}

#[test]
fn imports_route_to_files_locks_or_errors() {
    let locks = vec![(s("dep"), s("/p/.mlang/deps/abc/lib.ml")), (s("dep"), s("/p/.mlang/deps/def/lib.ml"))];
    assert!(matches!(import_route("\"./util\"", &locks), ImportRoute::File(p) if p == "./util"));
    assert!(matches!(import_route("../lib/x", &locks), ImportRoute::File(p) if p == "../lib/x"));
    assert!(matches!(import_route("/abs/y.ml", &locks), ImportRoute::File(p) if p == "/abs/y.ml"));
    assert!(matches!(import_route("\"dep\"", &locks), ImportRoute::Locked(p) if p == "/p/.mlang/deps/def/lib.ml"));
    match import_route("\"other\"", &locks) {
        ImportRoute::Missing(m) => assert_eq!(
            m,
            "Cannot resolve import `\"other\"`. Use relative import (`./...`) or add dependency via `mlang get`."
        ),
        _ => panic!("expected a missing import"),
    }
}
