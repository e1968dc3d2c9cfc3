use mlang::ast::{BlockStatement, Expression, Program, Statement, Type};
use mlang::codegen::CodeGenerator;
use mlang::lexer::Lexer;
use mlang::parser::Parser;

fn c_of(input: &str) -> String {
    let lexer = Lexer::new(input);
    let mut parser = Parser::new(lexer);
    let program = parser.parse_program().unwrap();
    let mut codegen = CodeGenerator::new();
    codegen.generate(&program)
}

#[test]
fn test_codegen() {
    let input = r#"
            loke main() -> kain {
                kain age = ၂၀;
                hlyin (age > ၁၈) {
                    pya("adult");
                }
                pyan 0;
            }
        "#;
    let c_code = c_of(input);
    assert!(c_code.contains("int main()"));
    assert!(c_code.contains("printf(\"%s\\n\", \"adult\")"));
}

#[test]
fn test_codegen_for_in_loop() {
    let input = r#"
            loke main() -> kain {
                su<kain> numbers = [၁, ၂, ၃];
                pat item htae numbers {
                    pya(item);
                }
                pyan 0;
            }
        "#;
    let c_code = c_of(input);
    assert!(c_code.contains("for (long long __mlang_i0 = 0; __mlang_i0 < 3; __mlang_i0++)"));
    assert!(c_code.contains("mlang_6974656d = mlang_6e756d62657273[__mlang_i0];"));
}

#[test]
fn test_codegen_for_in_loop_array_alias_length_propagates() {
    let input = r#"
            loke main() -> kain {
                su<kain> numbers = [၁, ၂, ၃];
                su<kain> other = numbers;
                pat item htae other {
                    pya(item);
                }
                pyan 0;
            }
        "#;
    let c_code = c_of(input);
    assert!(c_code.contains("long long mlang_6f74686572_len = 3;"));
    assert!(c_code.contains("for (long long __mlang_i0 = 0; __mlang_i0 < 3; __mlang_i0++)"));
}

#[test]
fn test_codegen_for_in_loop_array_literal_direct() {
    let input = r#"
            loke main() -> kain {
                pat item htae [၁, ၂, ၃] {
                    pya(item);
                }
                pyan 0;
            }
        "#;
    let c_code = c_of(input);
    assert!(c_code.contains("for (long long __mlang_i0 = 0; __mlang_i0 < 3; __mlang_i0++)"));
    assert!(c_code.contains("= (long long[]){1, 2, 3}[__mlang_i0];"));
}

#[test]
fn codegen_starts_with_the_c_prelude() {
    let mut codegen = CodeGenerator::new();
    let out = codegen.generate(&Program { statements: vec![] });
    assert!(out.starts_with("#include <stdio.h>\n#include <stdbool.h>\n#include <string.h>\n#include <stdlib.h>\n\n"));
    assert!(out.ends_with("    char* empty = malloc(1); empty[0] = '\\0'; return empty;\n}\n\n"));
    assert_eq!(codegen.output, out);
}

#[test]
fn codegen_exact_statement_text() {
    let input = r#"
            loke main() -> kain {
                kain x = ၅;
                x = x + ၁;
                pya(x);
                pyan x;
            }
        "#;
    let c_code = c_of(input);
    let body = "int main() {\n    long long mlang_78 = 5;\n    mlang_78 = (mlang_78 + 1);\n    printf(\"%lld\\n\", mlang_78);\n    return mlang_78;\n}\n";
    assert!(c_code.ends_with(body), "{}", c_code);
}

#[test]
fn codegen_string_concat_and_unicode_names() {
    let input = r#"
            sar name = "a" + "b";
            pya(name);
        "#;
    let c_code = c_of(input);
    assert!(c_code.contains("char* mlang_6e616d65 = mlang_concat(\"a\", \"b\");\n"));
    assert!(c_code.contains("printf(\"%s\\n\", mlang_6e616d65);\n"));
    let mut out = String::new();
    let before = out.clone();
    Expression::dummy_print_format(&mut out, &Expression::IntegerLiteral(1));
    assert_eq!(out, before);
}

#[test]
fn codegen_unknown_collection_becomes_a_comment() {
    let program = Program {
        statements: vec![Statement::ForIn {
            index: None,
            iterator: "x".to_string(),
            collection: Expression::IntegerLiteral(3),
            body: BlockStatement { statements: vec![] },
            name_span: Default::default(),
        }],
    };
    let mut codegen = CodeGenerator::new();
    let out = codegen.generate(&program);
    assert!(out.ends_with("/* Unsupported for-in collection type */\n"));
    let program = Program {
        statements: vec![
            Statement::Let {
                name: "xs".to_string(),
                value: Expression::FunctionCall { function: "f".to_string(), arguments: vec![] },
                ty: Type::Array(Box::new(Type::Kain)),
                name_span: Default::default(),
            },
            Statement::ForIn {
                index: None,
                iterator: "x".to_string(),
                collection: Expression::Identifier("xs".to_string()),
                body: BlockStatement { statements: vec![] },
                name_span: Default::default(),
            },
        ],
    };
    let mut codegen = CodeGenerator::new();
    let out = codegen.generate(&program);
    assert!(out.contains("long long* mlang_7873 = mlang_66();\n"));
    assert!(out.ends_with("/* Cannot iterate: array length unknown */\n"));
}

#[test]
fn codegen_import_and_if_else_chain() {
    let input = r#"
            kain a = ၁;
            hlyin (a > ၁) {
                pya(a);
            } mo hlyin (a == ၁) {
                pya(a);
            } mo {
                pya(a);
            }
        "#;
    let c_code = c_of(input);
    assert!(c_code.contains("if ((mlang_61 > 1)) {\n    printf(\"%lld\\n\", mlang_61);\n} else if ((mlang_61 == 1)) {\n    printf(\"%lld\\n\", mlang_61);\n} else {\n    printf(\"%lld\\n\", mlang_61);\n}\n"), "{}", c_code);
}
