use mlang::ast::Statement;
use mlang::cli::{
    format_outcome, run_refusal, FormatOutcome,
    program_without_main, test_names,
    default_lock_version, generate_test_runner_source, parse_ls_remote_commit,
    capitalize_first, clean_go_identifier, go_exported_name, go_test_function_name, is_cross_target,
    is_hex_commit, normalize_entry_path, output_file_name, parse_build_args, parse_fmt_args,
    parse_get_args, parse_test_args, GoTargetOptions,
};

use mlang::lexer::Lexer;
use mlang::parser::Parser;

fn strings(xs: &[&str]) -> Vec<String> {
    xs.iter().map(|s| s.to_string()).collect()
}

#[test]
fn test_parse_build_args_with_cross_flags() {
    let args = strings(&["--target", "go", "--goos", "linux", "--goarch", "arm64", "app.ml"]);
    let parsed = parse_build_args(&args).expect("parse build args");
    assert_eq!(parsed.target, "go");
    assert_eq!(parsed.file_path.as_deref(), Some("app.ml"));
    assert_eq!(parsed.go_target.goos.as_deref(), Some("linux"));
    assert_eq!(parsed.go_target.goarch.as_deref(), Some("arm64"));
    assert!(is_cross_target(&parsed.go_target, "linux", "amd64"));
}

#[test]
fn test_parse_build_args_defaults_to_llvm() {
    let args = strings(&["app.ml"]);
    let parsed = parse_build_args(&args).expect("parse build args");
    assert_eq!(parsed.target, "llvm");
    assert_eq!(parsed.file_path.as_deref(), Some("app.ml"));
}

#[test]
fn test_parse_build_args_rejects_go_flags_for_c() {
    let args = strings(&["--target", "c", "--goos", "linux", "app.ml"]);
    let err = parse_build_args(&args).unwrap_err();
    assert!(err.contains("--goos/--goarch"));
}

#[test]
fn test_parse_build_args_rejects_go_flags_for_default_llvm() {
    let args = strings(&["--goos", "linux", "app.ml"]);
    let err = parse_build_args(&args).unwrap_err();
    assert!(err.contains("--goos/--goarch are only supported with `--target go`"));
}

#[test]
fn test_go_test_function_name_matches_codegen_shape() {
    assert_eq!(go_test_function_name("timeout_guard"), "MlangTestTimeoutGuard");
}

#[test]
fn build_args_errors() {
    assert_eq!(
        parse_build_args(&strings(&["--target"])).unwrap_err(),
        "--target requires a value ('c', 'go', or 'llvm')"
    );
    assert_eq!(parse_build_args(&strings(&["--goos"])).unwrap_err(), "--goos requires a value");
    assert_eq!(parse_build_args(&strings(&["--goarch"])).unwrap_err(), "--goarch requires a value");
    assert_eq!(parse_build_args(&strings(&["--fast"])).unwrap_err(), "Unknown flag `--fast`");
    assert_eq!(
        parse_build_args(&strings(&["a.ml", "b.ml"])).unwrap_err(),
        "Multiple input files provided"
    );
    assert_eq!(
        parse_build_args(&strings(&["--target", "wasm"])).unwrap_err(),
        "Unknown target 'wasm'. Use 'c', 'go', or 'llvm'."
    );
    let parsed = parse_build_args(&strings(&["--target", "GO"])).unwrap();
    assert_eq!(parsed.target, "go");
    assert_eq!(parsed.file_path, None);
}

#[test]
fn fmt_test_and_get_args() {
    assert_eq!(
        parse_fmt_args(&strings(&["--check", "a.ml"])).unwrap(),
        (true, Some("a.ml".to_string()))
    );
    assert_eq!(parse_fmt_args(&strings(&[])).unwrap(), (false, None));
    assert_eq!(parse_fmt_args(&strings(&["--x"])).unwrap_err(), "Unknown flag `--x`");
    assert_eq!(parse_test_args(&strings(&["t.ml"])).unwrap(), "t.ml");
    assert_eq!(parse_test_args(&strings(&[])).unwrap_err(), "No file specified.");
    assert_eq!(
        parse_test_args(&strings(&["a", "b"])).unwrap_err(),
        "Multiple input files provided"
    );
    let g = parse_get_args(&strings(&[
        "--import", "dep", "--git", "https://x/y.git", "--ref", "main", "--entry", "lib.ml",
    ]))
    .unwrap();
    assert_eq!(
        (g.import_path.as_str(), g.git_url.as_str(), g.git_ref.as_str(), g.entry.as_str()),
        ("dep", "https://x/y.git", "main", "lib.ml")
    );
    assert_eq!(
        parse_get_args(&strings(&["--import", "dep"])).unwrap_err(),
        "--git is required"
    );
    assert_eq!(
        parse_get_args(&strings(&["extra"])).unwrap_err(),
        "Unexpected positional argument `extra`"
    );
}

#[test]
fn output_names() {
    let native = GoTargetOptions { goos: None, goarch: None };
    assert_eq!(output_file_name("app", "c", &native, "linux", "amd64", ""), "app");
    assert_eq!(output_file_name("app", "llvm", &native, "windows", "amd64", ".exe"), "app.exe");
    assert_eq!(output_file_name("app", "go", &native, "linux", "amd64", ""), "app");
    let cross = GoTargetOptions { goos: Some("windows".to_string()), goarch: None };
    assert_eq!(
        output_file_name("app", "go", &cross, "linux", "amd64", ""),
        "app_windows_amd64.exe"
    );
    assert!(!is_cross_target(&native, "linux", "amd64"));
}

#[test]
fn go_names() {
    assert_eq!(clean_go_identifier("func"), "ml_func");
    assert_eq!(clean_go_identifier("value"), "value");
    assert_eq!(go_exported_name("__a__bc_"), "ABc");
    assert_eq!(capitalize_first("ß"), "SS");
    assert_eq!(capitalize_first(""), "");
    assert_eq!(go_test_function_name("go"), "MlangTestMlGo");
}

#[test]
fn commit_and_entry_checks() {
    assert!(is_hex_commit("abc1234"));
    assert!(!is_hex_commit("abc123"));
    assert!(!is_hex_commit("abc123g"));
    assert!(!is_hex_commit(&"a".repeat(41)));
    assert_eq!(normalize_entry_path("  src\\lib.ml ").unwrap(), "src/lib.ml");
    assert_eq!(normalize_entry_path("   ").unwrap_err(), "`--entry` cannot be empty");
    assert_eq!(normalize_entry_path("/abs.ml").unwrap_err(), "`--entry` must be a relative path");
    assert_eq!(
        normalize_entry_path("a/../b.ml").unwrap_err(),
        "`--entry` cannot contain `..` path traversal"
    );
    assert_eq!(normalize_entry_path("a/..b/c.ml").unwrap(), "a/..b/c.ml");
}

#[test]
fn ls_remote_commit_is_first_word_lowercased() {
    let out = b"ABCDEF1234567\trefs/heads/main\nffff\trefs/tags/x\n";
    assert_eq!(parse_ls_remote_commit(out), Some("abcdef1234567".to_string()));
    assert_eq!(parse_ls_remote_commit(b""), None);
    assert_eq!(parse_ls_remote_commit(b"xyz123456 refs/heads/main\n"), None);
    assert_eq!(parse_ls_remote_commit(b"   \n"), None);
    assert_eq!(parse_ls_remote_commit(b"1234567\r\n"), Some("1234567".to_string()));
}

#[test]
fn test_runner_lists_each_test() {
    let src = generate_test_runner_source(&vec!["smoke_test".to_string(), "say \"hi\"".to_string()]);
    assert!(src.starts_with("package main\n\nimport (\n\t\"fmt\"\n\t\"os\"\n)\n\n"));
    assert!(src.contains("\t\t{name: \"smoke_test\", run: MlangTestSmokeTest},\n"));
    assert!(src.contains("\t\t{name: \"say \\\"hi\\\"\", run: "));
    assert!(src.ends_with("\tfmt.Printf(\"Passed %d/%d tests\\n\", len(tests), len(tests))\n}\n"));
    assert_eq!(default_lock_version(), 1);
}

#[test]
fn tests_and_main_are_picked_out() {
    let src = "loke main() -> kain {\n pyan 0;\n}\nset_sae first {\n pyan 0;\n}\nloke helper() -> kain {\n pyan 1;\n}\nset_sae second {\n pyan 0;\n}\n";
    let mut parser = Parser::new(Lexer::new(src));
    let program = parser.parse_program().unwrap();
    assert!(parser.errors.is_empty());
    assert_eq!(test_names(&program), vec!["first".to_string(), "second".to_string()]);
    let rest = program_without_main(program);
    assert_eq!(rest.statements.len(), 3);
    assert!(matches!(&rest.statements[0], Statement::TestDecl { name, .. } if name == "first"));
    assert!(matches!(&rest.statements[1], Statement::FunctionDecl { name, .. } if name == "helper"));
    assert!(matches!(&rest.statements[2], Statement::TestDecl { name, .. } if name == "second"));
}

#[test]
fn fmt_and_run_decisions() {
    assert_eq!(format_outcome("a\n", "a\n", true), FormatOutcome::AlreadyFormatted);
    assert_eq!(format_outcome("a", "a\n", true), FormatOutcome::NeedsFormatting);
    assert_eq!(format_outcome("a", "a\n", false), FormatOutcome::Rewrite);
    let cross = GoTargetOptions { goos: Some("windows".to_string()), goarch: None };
    assert_eq!(
        run_refusal("go", &cross, "linux", "amd64").unwrap(),
        "`mlang run` does not support cross targets (requested windows / amd64). Use `mlang build --goos ... --goarch ...` instead."
    );
    assert_eq!(run_refusal("c", &cross, "linux", "amd64"), None);
    assert_eq!(run_refusal("go", &GoTargetOptions { goos: None, goarch: None }, "linux", "amd64"), None);
}
