use mlang::ast::{IfAlternative, Program, Statement, Type};
use mlang::lexer::Lexer;
use mlang::parser::Parser;

fn parse(input: &str) -> (Program, Parser) {
    let lexer = Lexer::new(input);
    let mut parser = Parser::new(lexer);
    let program = parser.parse_program().unwrap();
    (program, parser)
}

#[test]
fn test_let_statements() {
    let input = r#"
            kain age = ၂၀;
            sar name = "Aung";
        "#;
    let (program, _parser) = parse(input);
    assert_eq!(program.statements.len(), 2);
}

#[test]
fn test_spans_are_recorded() {
    let input = "loke main() -> kain {\n    kain age = ၂၀;\n}";
    let (program, parser) = parse(input);
    assert!(parser.errors.is_empty(), "Parse errors: {:?}", parser.errors);

    if let Statement::FunctionDecl { name, name_span, body, .. } = &program.statements[0] {
        assert_eq!(name, "main");
        println!("FunctionDecl '{}' span: line={}, col={}", name, name_span.line, name_span.column);
        assert_eq!(name_span.line, 1);
        assert!(name_span.column > 0, "column should be > 0");

        if let Statement::Let { name, name_span, .. } = &body.statements[0] {
            assert_eq!(name, "age");
            println!("Let '{}' span: line={}, col={}", name, name_span.line, name_span.column);
            assert_eq!(name_span.line, 2);
            assert!(name_span.column > 0);
        } else {
            panic!("Expected Let statement in body");
        }
    } else {
        panic!("Expected FunctionDecl");
    }
}

#[test]
fn test_function_declaration() {
    let input = r#"
            loke main(kain a, sar b) -> kain {
                pyan a;
            }
        "#;
    let (program, _parser) = parse(input);
    assert_eq!(program.statements.len(), 1);
    if let Statement::FunctionDecl { name, parameters, return_type, .. } = &program.statements[0] {
        assert_eq!(name, "main");
        assert_eq!(parameters.len(), 2);
        assert_eq!(return_type, &Type::Kain);
    } else {
        panic!("Expected FunctionDecl");
    }
}

#[test]
fn test_arrays_and_hashmaps() {
    let input = r#"
            su<kain> numbers = [၁, ၂, ၃];
            twe<sar, kain> dict = {"a": 1, "b": 2};
            kain first = numbers[၀];
        "#;
    let (program, parser) = parse(input);
    if parser.errors.len() != 0 {
        for error in &parser.errors {
            println!("Parser Error: {}", error.to_text());
        }
    }
    assert_eq!(parser.errors.len(), 0);
    assert_eq!(program.statements.len(), 3);
}

#[test]
fn test_import_string_and_legacy_syntax() {
    let input = r#"
            yu "json";
            yu json;
        "#;
    let (program, parser) = parse(input);
    assert!(parser.errors.is_empty(), "Parse errors: {:?}", parser.errors);
    assert_eq!(program.statements.len(), 2);
    match &program.statements[0] {
        Statement::Import { module, .. } => assert_eq!(module, "json"),
        other => panic!("Expected import statement, got {:?}", other),
    }
    match &program.statements[1] {
        Statement::Import { module, .. } => assert_eq!(module, "json"),
        other => panic!("Expected import statement, got {:?}", other),
    }
}

#[test]
fn test_qualified_struct_type_in_let() {
    let input = r#"
            loke main() -> kain {
                http.Response res = bhala;
                pyan 0;
            }
        "#;
    let (program, parser) = parse(input);
    assert!(parser.errors.is_empty(), "Parse errors: {:?}", parser.errors);
    let Statement::FunctionDecl { body, .. } = &program.statements[0] else {
        panic!("Expected function declaration");
    };
    let Statement::Let { ty, .. } = &body.statements[0] else {
        panic!("Expected let statement");
    };
    assert_eq!(ty, &Type::Struct("http.Response".to_string()));
}

#[test]
fn test_read_input() {
    let input = r#"
            sar name = phat("name?");
        "#;
    let (program, parser) = parse(input);
    assert_eq!(parser.errors.len(), 0);
    assert_eq!(program.statements.len(), 1);
}

#[test]
fn test_elif() {
    let input = r#"
            hlyin (x == ၁) {
                pya("one");
            } mo hlyin (x == ၂) {
                pya("two");
            } mo {
                pya("other");
            }
        "#;
    let (program, parser) = parse(input);
    if !parser.errors.is_empty() {
        for error in &parser.errors {
            println!("Parser Error: {}", error.to_text());
        }
    }
    assert_eq!(parser.errors.len(), 0);
    assert_eq!(program.statements.len(), 1);
    if let Statement::If { alternative, .. } = &program.statements[0] {
        match alternative {
            Some(IfAlternative::ElseIf(elif_stmt)) => {
                if let Statement::If { alternative: inner_alt, .. } = elif_stmt.as_ref() {
                    assert!(matches!(inner_alt, Some(IfAlternative::Else(_))));
                } else {
                    panic!("Expected inner If statement in elif");
                }
            }
            _ => panic!("Expected ElseIf alternative, got {:?}", alternative),
        }
    } else {
        panic!("Expected If statement");
    }
}

#[test]
fn test_for_in_loop() {
    let input = r#"
            su<kain> numbers = [၁, ၂, ၃];
            pat item htae numbers {
                pya(item);
            }
        "#;
    let (program, parser) = parse(input);
    assert!(parser.errors.is_empty(), "Parse errors: {:?}", parser.errors);
    assert_eq!(program.statements.len(), 2);
    assert!(matches!(program.statements[1], Statement::ForIn { .. }));
}

#[test]
fn test_for_in_loop_with_index() {
    let input = r#"
            su<kain> numbers = [၁, ၂, ၃];
            pat (kain i, kain item) htae numbers {
                pya(i);
                pya(item);
            }
        "#;
    let (program, parser) = parse(input);
    assert!(parser.errors.is_empty(), "Parse errors: {:?}", parser.errors);
    assert_eq!(program.statements.len(), 2);
    match &program.statements[1] {
        Statement::ForIn { index, iterator, .. } => {
            assert_eq!(index.as_deref(), Some("i"));
            assert_eq!(iterator, "item");
        }
        other => panic!("Expected ForIn, got {:?}", other),
    }
}

#[test]
fn test_struct_field_assignment() {
    let input = r#"
pone Person { sar name; kain age; }
loke main() -> kain {
    Person p = Person { name: "Aung", age: 20 };
    p.name = "Ko Ko";
    p.age = 25;
    pya(p.name);
    pyan 0;
}
"#;
    let (_program, parser) = parse(input);
    assert!(parser.errors.is_empty(), "Parse errors: {:?}", parser.errors);
}

#[test]
fn test_array_index_assignment() {
    let input = r#"
loke main() -> kain {
    su<kain> nums = [1, 2, 3];
    nums[0] = 10;
    twe<sar, kain> prices = {"tea": 500};
    prices["coffee"] = 800;
    pyan 0;
}
"#;
    let (_program, parser) = parse(input);
    assert!(parser.errors.is_empty(), "Parse errors: {:?}", parser.errors);
}

#[test]
fn test_break_continue_statements() {
    let input = r#"
loke main() -> kain {
    kain i = 0;
    pat (i < 10) {
        i = i + 1;
        hlyin (i == 3) {
            shar;
        }
        hlyin (i == 7) {
            yut;
        }
    }
    pyan 0;
}
"#;
    let (_program, parser) = parse(input);
    assert!(parser.errors.is_empty(), "Parse errors: {:?}", parser.errors);
}

#[test]
fn test_closure_literal_and_function_type() {
    let input = r#"
loke on_message(loke(sar) -> kain callback) -> kain {
    pyan callback("hello");
}

loke main() -> kain {
    on_message(loke(sar msg) -> kain {
        pya(msg);
        pyan 0;
    });
    pyan 0;
}
"#;
    let (_program, parser) = parse(input);
    assert!(parser.errors.is_empty(), "Parse errors: {:?}", parser.errors);
}

#[test]
fn test_package_and_export_declarations() {
    let input = r#"
atote util;
pay loke add(kain a, kain b) -> kain {
    pyan a + b;
}
"#;
    let (program, parser) = parse(input);
    assert!(parser.errors.is_empty(), "Parse errors: {:?}", parser.errors);
    assert!(matches!(program.statements[0], Statement::PackageDecl { .. }));
    assert!(matches!(program.statements[1], Statement::Export { .. }));
}

#[test]
fn test_classic_for_loop_statement() {
    let input = r#"
loke main() -> kain {
    pat (kain i = 0; i < 10; i = i + 1) {
        pya(i);
    }
    pyan 0;
}
"#;
    let (program, parser) = parse(input);
    assert!(parser.errors.is_empty(), "Parse errors: {:?}", parser.errors);
    let Statement::FunctionDecl { body, .. } = &program.statements[0] else {
        panic!("Expected function declaration");
    };
    assert!(matches!(body.statements[0], Statement::ForClassic { .. }));
}

#[test]
fn test_phase3_channel_go_defer_parsing() {
    let input = r#"
        loke worker(laung<kain> ch) -> kain {
            naut_sone ch.close();
            ch.send(1);
            pyan 0;
        }

        loke main() -> kain {
            laung<kain> ch = laung<kain>(10);
            kyoe worker(ch);
            kain v = ch.recv();
            pya(v);
            pyan 0;
        }
        "#;
    let (program, parser) = parse(input);
    assert!(parser.errors.is_empty(), "Parse errors: {:?}", parser.errors);
    let Statement::FunctionDecl { body, .. } = &program.statements[0] else {
        panic!("Expected first function declaration");
    };
    assert!(matches!(body.statements[0], Statement::Defer { .. }));
    let Statement::FunctionDecl { body, .. } = &program.statements[1] else {
        panic!("Expected second function declaration");
    };
    assert!(matches!(body.statements[1], Statement::Go { .. }));
}

#[test]
fn test_phase3_go_defer_require_call() {
    let input = r#"
        loke main() -> kain {
            kyoe 1;
            naut_sone bhala;
            pyan 0;
        }
        "#;
    let (_program, parser) = parse(input);
    assert!(!parser.errors.is_empty());
    assert!(parser
        .errors
        .iter()
        .any(|e| e.message.contains("expects a function or method call")));
}

#[test]
fn test_export_inside_block_is_error() {
    let input = r#"
loke main() -> kain {
    pay kain x = 1;
    pyan 0;
}
"#;
    let (_program, parser) = parse(input);
    assert!(!parser.errors.is_empty());
    assert!(parser
        .errors
        .iter()
        .any(|e| e.message.contains("only allowed at top level")));
}

#[test]
fn test_phase4_baung_and_set_sae_parsing() {
    let input = r#"
set_sae timeout_guard {
    baung ctx = baung(5000);
    pyan bhala;
}
"#;
    let (program, parser) = parse(input);
    assert!(parser.errors.is_empty(), "Parse errors: {:?}", parser.errors);
    assert_eq!(program.statements.len(), 1);
    match &program.statements[0] {
        Statement::TestDecl { name, body, .. } => {
            assert_eq!(name, "timeout_guard");
            assert!(matches!(body.statements[0], Statement::Let { ty: Type::Baung, .. }));
        }
        other => panic!("Expected TestDecl, got {:?}", other),
    }
}

#[test]
fn test_set_sae_inside_block_is_error() {
    let input = r#"
loke main() -> kain {
    set_sae bad {
        pyan bhala;
    }
    pyan 0;
}
"#;
    let (_program, parser) = parse(input);
    assert!(parser
        .errors
        .iter()
        .any(|e| e.message.contains("`set_sae` is only allowed at top level")));
}

#[test]
fn parse_error_text_has_position() {
    let (_program, parser) = parse("kain = 5;");
    assert!(!parser.errors.is_empty());
    let text = parser.errors[0].to_text();
    assert!(text.starts_with("[1:"), "{}", text);
}
