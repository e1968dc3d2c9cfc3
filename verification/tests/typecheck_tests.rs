use mlang::ast::{Program, Type};
use mlang::lexer::Lexer;
use mlang::parser::Parser;
use mlang::typecheck::{Environment, Symbol, TypeChecker};

fn parse(input: &str) -> (Program, Parser) {
    let lexer = Lexer::new(input);
    let mut parser = Parser::new(lexer);
    let program = parser.parse_program().unwrap();
    (program, parser)
}

fn check(program: &Program) -> TypeChecker {
    let mut checker = TypeChecker::new();
    let mut env = Environment::new();
    checker.check_program(program, &mut env);
    checker
}

#[test]
fn test_type_checker_success() {
    let input = r#"
            loke main() -> kain {
                kain age = ၂၀;
                hlyin (age > ၁၈) {
                    pyan 0;
                }
                pyan 1;
            }
        "#;
    let (program, _parser) = parse(input);
    let checker = check(&program);
    assert_eq!(checker.errors.len(), 0);
}

#[test]
fn test_type_checker_type_mismatch() {
    let input = r#"
            loke main() -> kain {
                kain age = "Hello";
            }
        "#;
    let (program, _parser) = parse(input);
    let checker = check(&program);
    assert_eq!(checker.errors.len(), 1);
    assert!(checker.errors[0]
        .message
        .contains("Type mismatch: cannot assign `Sar` to variable `age` of type `Kain`"));
}

#[test]
fn test_type_checker_for_in_success() {
    let input = r#"
            loke main() -> kain {
                su<kain> numbers = [၁, ၂, ၃];
                pat item htae numbers {
                    pya(item);
                }
                pyan 0;
            }
        "#;
    let (program, _parser) = parse(input);
    let checker = check(&program);
    assert!(checker.errors.is_empty(), "Type checker errors: {:?}", checker.errors);
}

#[test]
fn test_type_checker_error_nil_comparison() {
    let input = r#"
            loke divide(kain a, kain b) -> (kain, amhar) {
                hlyin (b == 0) {
                    pyan (0, amhar("division by zero"));
                }
                pyan (a / b, bhala);
            }
            loke main() -> kain {
                kain result, amhar err = divide(10, 0);
                hlyin (err != bhala) {
                    pya("Error occurred");
                }
                pya(result);
                pyan 0;
            }
        "#;
    let (program, parser) = parse(input);
    assert!(parser.errors.is_empty(), "Parse errors: {:?}", parser.errors);
    let checker = check(&program);
    assert!(checker.errors.is_empty(), "Type checker errors: {:?}", checker.errors);
}

#[test]
fn test_type_checker_break_continue_outside_loop() {
    let input = r#"
            loke main() -> kain {
                shar;
                yut;
                pyan 0;
            }
        "#;
    let (program, parser) = parse(input);
    assert!(parser.errors.is_empty(), "Parse errors: {:?}", parser.errors);
    let checker = check(&program);
    assert_eq!(checker.errors.len(), 2);
    assert!(checker.errors[0].message.contains("inside loops"));
    assert!(checker.errors[1].message.contains("inside loops"));
}

#[test]
fn test_type_checker_for_in_with_index() {
    let input = r#"
            loke main() -> kain {
                su<kain> numbers = [1, 2, 3];
                pat (kain i, kain item) htae numbers {
                    kain next = i + 1;
                    pya(item);
                    pya(next);
                }
                pyan 0;
            }
        "#;
    let (program, parser) = parse(input);
    assert!(parser.errors.is_empty(), "Parse errors: {:?}", parser.errors);
    let checker = check(&program);
    assert!(checker.errors.is_empty(), "Type checker errors: {:?}", checker.errors);
}

#[test]
fn test_type_checker_closure_callback() {
    let input = r#"
            loke on_message(loke(sar) -> kain callback) -> kain {
                pyan callback("hello");
            }

            loke main() -> kain {
                on_message(loke(sar msg) -> kain {
                    pya(msg);
                    pyan 0;
                });
                pyan 0;
            }
        "#;
    let (program, parser) = parse(input);
    assert!(parser.errors.is_empty(), "Parse errors: {:?}", parser.errors);
    let checker = check(&program);
    assert!(checker.errors.is_empty(), "Type checker errors: {:?}", checker.errors);
}

#[test]
fn test_type_checker_stdlib_http_usage() {
    let input = r#"
            yu "kainn/http";

            loke main() -> kain {
                http.Response res, amhar err = http.get("https://example.com");
                hlyin (err == bhala) {
                    pya(res.body);
                    pya(res.status);
                }
                pyan 0;
            }
        "#;
    let (program, parser) = parse(input);
    assert!(parser.errors.is_empty(), "Parse errors: {:?}", parser.errors);
    let checker = check(&program);
    assert!(checker.errors.is_empty(), "Type checker errors: {:?}", checker.errors);
}

#[test]
fn test_type_checker_unknown_import_is_noop() {
    let input = r#"
            yu unknown_module;

            loke main() -> kain {
                unknown_module.call();
                pyan 0;
            }
        "#;
    let (program, parser) = parse(input);
    assert!(parser.errors.is_empty(), "Parse errors: {:?}", parser.errors);
    let checker = check(&program);
    assert!(!checker.errors.is_empty());
    assert!(checker.errors[0]
        .message
        .contains("Undeclared identifier `unknown_module`"));
}

#[test]
fn test_type_checker_json_decode_type_lock() {
    let input = r#"
            yu "json";

            loke main() -> kain {
                twe<sar, sar> parsed, amhar err = json.decode("{}");
                pya(err);
                pya(parsed);
                pyan 0;
            }
        "#;
    let (program, parser) = parse(input);
    assert!(parser.errors.is_empty(), "Parse errors: {:?}", parser.errors);
    let checker = check(&program);
    assert!(!checker.errors.is_empty());
    assert!(checker
        .errors
        .iter()
        .any(|e| e.message.contains("Type mismatch in destructuring")));
}

#[test]
fn environment_get_after_set_and_shadowing() {
    let mut outer = Environment::new();
    outer.set(
        "x".to_string(),
        Symbol { ty: Type::Kain, is_function: false, parameters: vec![] },
    );
    assert_eq!(outer.get("x").map(|s| s.ty), Some(Type::Kain));
    assert!(outer.get("y").is_none());
    let mut inner = Environment::new_enclosed(outer);
    assert_eq!(inner.get("x").map(|s| s.ty), Some(Type::Kain));
    inner.set(
        "x".to_string(),
        Symbol { ty: Type::Sar, is_function: false, parameters: vec![] },
    );
    assert_eq!(inner.get("x").map(|s| s.ty), Some(Type::Sar));
}

#[test]
fn assignable_rules() {
    let checker = TypeChecker::new();
    assert!(checker.is_assignable(&Type::Kain, &Type::Nil));
    assert!(checker.is_assignable(&Type::Sar, &Type::Sar));
    assert!(!checker.is_assignable(&Type::Sar, &Type::Kain));
    let t1 = Type::Tuple(vec![Type::Kain, Type::Error]);
    let t2 = Type::Tuple(vec![Type::Kain, Type::Nil]);
    assert!(checker.is_assignable(&t1, &t2));
    assert!(!checker.is_assignable(&t2, &t1));
}

#[test]
fn type_checker_reports_each_error_kind() {
    let input = r#"
            loke main() -> kain {
                kain a = 1 + "x";
                sar b = undefined_thing;
                hlyin (1) {
                    pyan 0;
                }
                pyan "no";
            }
        "#;
    let (program, _parser) = parse(input);
    let checker = check(&program);
    let msgs: Vec<String> = checker.errors.iter().map(|e| e.message.clone()).collect();
    assert!(msgs.iter().any(|m| m == "Operator `+` requires matching numeric types or strings"), "{:?}", msgs);
    assert!(msgs.iter().any(|m| m == "Undeclared identifier `undefined_thing`"), "{:?}", msgs);
    assert!(msgs.iter().any(|m| m == "If condition must be a boolean (sit), got Some(Kain)"), "{:?}", msgs);
    assert!(msgs.iter().any(|m| m == "Return type mismatch: expected Kain, got Sar"), "{:?}", msgs);
    assert!(checker.errors.iter().all(|e| e.line == 0 && e.column == 0));
    assert_eq!(checker.errors[0].to_text(), format!("[0:0] {}", msgs[0]));
}
