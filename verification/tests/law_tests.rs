use mlang::ast::Program;
use mlang::cli::{normalize_entry_path, unresolved_ref};
use mlang::loader::{import_route, ImportRoute, LoadState};
use mlang::codegen::push_c_ident;
use mlang::formatter::format_source;
use mlang::lexer::{tokenize_all, Lexer};
use mlang::parser::Parser;
use mlang::token::TokenKind;
use mlang::typecheck::{Environment, TypeChecker};

fn parsed(input: &str) -> Program {
    let mut parser = Parser::new(Lexer::new(input));
    let program = parser.parse_program().unwrap();
    assert!(parser.errors.is_empty());
    program
}

fn c_name(name: &str) -> String {
    let mut out: Vec<char> = Vec::new();
    push_c_ident(&mut out, name);
    out.into_iter().collect()
}

#[test]
fn end_of_input_repeats_at_the_same_place() {
    let mut lexer = Lexer::new("kain x");
    let first = lexer.next_token();
    assert_eq!(first.kind, TokenKind::Kain);
    let second = lexer.next_token();
    assert_eq!(second.kind, TokenKind::Identifier("x".to_string()));
    let eof = lexer.next_token();
    assert_eq!(eof.kind, TokenKind::Eof);
    for _ in 0..3 {
        let again = lexer.next_token();
        assert_eq!(again.kind, TokenKind::Eof);
        assert_eq!((again.line, again.column), (eof.line, eof.column));
    }
}

#[test]
fn tokenize_all_matches_reading_one_token_at_a_time() {
    let input = "// note\nkain x = ၁၂;\nsar s = \"hi\";\n";
    let all = tokenize_all(input);
    let mut lexer = Lexer::new(input);
    let mut i = 0;
    loop {
        let t = lexer.next_token();
        assert_eq!(t.kind, all[i].kind);
        assert_eq!((t.line, t.column), (all[i].line, all[i].column));
        i += 1;
        if t.kind == TokenKind::Eof {
            break;
        }
    }
    assert_eq!(i, all.len());
}

#[test]
fn c_names_are_hex_of_the_utf8_bytes() {
    assert_eq!(c_name("ab"), "mlang_6162");
    assert_eq!(c_name("ခ"), "mlang_e18081");
    assert_eq!(c_name(""), "mlang_");
    let a = c_name("x_1");
    let b = c_name("x1_");
    assert_ne!(a, b);
    assert!(a.is_ascii() && b.is_ascii());
    assert_eq!(c_name("ခ").len(), 6 + 2 * "ခ".len());
}

#[test]
fn break_and_continue_inside_a_loop_are_accepted() {
    let program = parsed(
        "loke main() -> kain {\nsu<kain> xs = [1, 2];\npat x htae xs {\nyut;\nshar;\n}\npyan 0;\n}",
    );
    let mut checker = TypeChecker::new();
    let mut env = Environment::new();
    checker.check_program(&program, &mut env);
    assert!(checker.errors.is_empty());
}

#[test]
fn comment_lines_come_first_in_formatted_output() {
    let out = format_source("loke main() -> kain {\npyan ၀;\n}\n// trailing note\n").unwrap();
    assert!(out.starts_with("// trailing note\n"));
    let out2 = format_source("// a\n// b\nloke main() -> kain {\npyan ၀;\n}").unwrap();
    assert!(out2.starts_with("// a\n// b\n\nloke main()"));
}

#[test]
fn tokens_carry_their_line_and_column() {
    let mut lexer = Lexer::new("kain\n  x = 1;");
    let k = lexer.next_token();
    assert_eq!((k.line, k.column), (1, 1));
    let x = lexer.next_token();
    assert_eq!(x.kind, TokenKind::Identifier("x".to_string()));
    assert_eq!((x.line, x.column), (2, 3));
    let eq = lexer.next_token();
    assert_eq!((eq.line, eq.column), (2, 5));
}

#[test]
fn formatting_twice_changes_nothing_more() {
    let once = format_source("// c\nloke main() -> kain {\nkain x = (၁ + ၂) * ၃;\nhlyin (x > 1) {\npya(\"a\");\n}mo{\npya(\"b\");\n}\npyan x;\n}").unwrap();
    let twice = format_source(&once).unwrap();
    assert_eq!(once, twice);
}

#[test]
fn drive_paths_count_as_absolute() {
    assert_eq!(normalize_entry_path("C:/x.ml").unwrap_err(), "`--entry` must be a relative path");
    assert_eq!(normalize_entry_path("d:\\x.ml").unwrap_err(), "`--entry` must be a relative path");
    assert_eq!(normalize_entry_path("c/x.ml").unwrap(), "c/x.ml");
    match import_route("\"C:/lib/util\"", &Vec::new()) {
        ImportRoute::File(p) => assert_eq!(p, "C:/lib/util"),
        _ => panic!("expected a file route"),
    }
}

#[test]
fn unresolved_refs_fall_back_to_hash_or_error() {
    assert_eq!(unresolved_ref("u", "ABCDEF1").unwrap(), "abcdef1");
    assert_eq!(
        unresolved_ref("https://x/y.git", "main").unwrap_err(),
        "Unable to resolve ref `main` for repository `https://x/y.git`"
    );
}

#[test]
fn resolved_imports_split_into_files_and_errors() {
    let mut state = LoadState::new();
    let files = state.take_resolved_imports(
        &"/m/a.ml".to_string(),
        vec![Ok("/m/b.ml".to_string()), Err("no such module".to_string()), Ok("/m/c.ml".to_string())],
    );
    assert_eq!(files, vec!["/m/b.ml".to_string(), "/m/c.ml".to_string()]);
    assert_eq!(state.errors.len(), 1);
    assert_eq!(state.errors[0].message, "no such module");
    assert_eq!(state.errors[0].path, Some("/m/a.ml".to_string()));
}
