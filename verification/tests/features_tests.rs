use mlang::ast::{Program, Type};
use mlang::features::{c_backend_unsupported_message, c_target_unsupported_message, llvm_unsupported_feature_message, program_uses_phase3, program_uses_phase4, type_uses_phase3};
use mlang::lexer::Lexer;
use mlang::llvm_types::{is_phase1_compatible, llvm_backend_available};
use mlang::parser::Parser;
use mlang::stdlib::resolve_stdlib_module;

fn parse_program(input: &str) -> Program {
    let lexer = Lexer::new(input);
    let mut parser = Parser::new(lexer);
    let program = parser.parse_program().unwrap();
    assert!(parser.errors.is_empty(), "Parse errors: {:?}", parser.errors);
    program
}

#[test]
fn test_llvm_backend_reports_go_only_stdlib_feature() {
    let program = parse_program(
        r#"
            yu "json";

            loke main() -> kain {
                pyan 0;
            }
            "#,
    );
    let err = llvm_unsupported_feature_message(&program, false).unwrap();
    assert!(err.contains("LLVM backend does not support Go-backed stdlib module `json`"));
    assert!(err.contains("Use `--target go`"));
}

#[test]
fn test_llvm_backend_reports_phase3_feature() {
    let program = parse_program(
        r#"
            loke main() -> kain {
                laung<kain> ch = laung<kain>(1);
                kyoe worker(ch);
                pyan 0;
            }

            loke worker(laung<kain> ch) -> kain {
                ch.send(1);
                pyan 0;
            }
            "#,
    );
    let err = llvm_unsupported_feature_message(&program, false).unwrap();
    assert!(err.contains("LLVM backend MVP does not support Phase 3"));
    assert!(err.contains("Use `--target go`"));
}

#[test]
fn test_program_uses_phase3_detection() {
    let phase3_program = parse_program(
        r#"
            loke main() -> kain {
                laung<kain> ch = laung<kain>();
                kyoe run(ch);
                pyan 0;
            }

            loke run(laung<kain> ch) -> kain {
                naut_sone ch.close();
                ch.send(1);
                pyan ch.recv();
            }
            "#,
    );
    assert!(program_uses_phase3(&phase3_program));

    let non_phase3_program = parse_program(
        r#"
            loke main() -> kain {
                su<kain> nums = [1, 2, 3];
                pya(ashay(nums));
                pyan 0;
            }
            "#,
    );
    assert!(!program_uses_phase3(&non_phase3_program));
}

#[test]
fn test_program_uses_phase4_detection() {
    let phase4_program = parse_program(
        r#"
            set_sae timeout_guard {
                baung ctx = baung(5000);
                pyan ctx.close();
            }
            "#,
    );
    assert!(program_uses_phase4(&phase4_program));

    let non_phase4_program = parse_program(
        r#"
            loke main() -> kain {
                pyan 0;
            }
            "#,
    );
    assert!(!program_uses_phase4(&non_phase4_program));
}

#[test]
fn llvm_message_order_and_plain_programs() {
    let plain = parse_program("loke main() -> kain { pyan 0; }");
    assert_eq!(llvm_unsupported_feature_message(&plain, false), None);
    let msg = llvm_unsupported_feature_message(&plain, true).unwrap();
    assert!(msg.starts_with("LLVM backend MVP does not support local package/module imports yet."));
    let pkg = parse_program("atote util;");
    assert!(llvm_unsupported_feature_message(&pkg, false)
        .unwrap()
        .contains("Phase 2 package/export declarations"));
}

#[test]
fn phase_types_and_llvm_types() {
    assert!(type_uses_phase3(&Type::Array(Box::new(Type::Channel(Box::new(Type::Kain))))));
    assert!(!type_uses_phase3(&Type::Baung));
    assert!(is_phase1_compatible(&Type::Tuple(vec![Type::Kain])));
    assert!(!is_phase1_compatible(&Type::HashMap(Box::new(Type::Sar), Box::new(Type::Kain))));
    assert!(!llvm_backend_available());
}

#[test]
fn stdlib_modules_resolve_by_name() {
    let http = resolve_stdlib_module("\"kainn/http\"").unwrap();
    assert_eq!(http.mlang_name, "kainn/http");
    assert_eq!(http.alias, "http");
    assert_eq!(http.functions.len(), 6);
    assert_eq!(http.functions[0].name, "get");
    let db = resolve_stdlib_module("database").unwrap();
    assert_eq!(db.go_imports[1], "github.com/lib/pq");
    assert_eq!(db.methods.len(), 4);
    assert!(resolve_stdlib_module("nope").is_none());
    for name in ["kainn", "json", "file", "su_nit", "pone_set", "in_ote", "hmat"] {
        assert_eq!(resolve_stdlib_module(name).unwrap().mlang_name, name);
    }
}

#[test]
fn test_c_backend_rejects_phase3_program() {
    let program = parse_program(
        r#"
            loke main() -> kain {
                laung<kain> ch = laung<kain>(1);
                kyoe worker(ch);
                pyan 0;
            }

            loke worker(laung<kain> ch) -> kain {
                naut_sone ch.close();
                ch.send(1);
                pyan 0;
            }
            "#,
    );
    let compile = c_backend_unsupported_message(&program);
    assert!(compile.is_some());
}

#[test]
fn test_c_backend_rejects_phase4_program() {
    let program = parse_program(
        r#"
            set_sae smoke {
                baung ctx = baung(1000);
                pyan ctx.close();
            }
            "#,
    );
    let compile = c_backend_unsupported_message(&program);
    assert!(compile.is_some());
}

#[test]
fn c_backend_messages_are_exact() {
    let phase4 = parse_program("set_sae smoke {\n pyan 0;\n}\n");
    assert_eq!(
        c_backend_unsupported_message(&phase4).unwrap(),
        "C backend does not support Phase 4 features (`set_sae`, `baung`, context middleware, database runtime). Use `--target go`."
    );
    let json = parse_program("yu \"json\";\nloke main() -> kain {\n pyan 0;\n}\n");
    assert_eq!(
        c_backend_unsupported_message(&json).unwrap(),
        "C backend does not support stdlib module `json` (import `json`). Use `--target go`."
    );
    let plain = parse_program("loke main() -> kain {\n pyan 0;\n}\n");
    assert_eq!(c_backend_unsupported_message(&plain), None);
}

#[test]
fn c_target_refuses_local_modules_first() {
    let plain = parse_program("loke main() -> kain {\n pyan 0;\n}\n");
    assert_eq!(
        c_target_unsupported_message(&plain, true).unwrap(),
        "C backend does not support local package/module system. Use `--target go`."
    );
    assert_eq!(c_target_unsupported_message(&plain, false), None);
}
