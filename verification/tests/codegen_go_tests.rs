use mlang::ast::{BlockStatement, Expression, Program, Statement, Type};
use mlang::codegen_go::GoCodeGenerator;
use mlang::lexer::Lexer;
use mlang::parser::Parser;

fn go_of(input: &str) -> String {
    let lexer = Lexer::new(input);
    let mut parser = Parser::new(lexer);
    let program = parser.parse_program().unwrap();
    let mut codegen = GoCodeGenerator::new();
    codegen.generate(&program)
}

#[test]
fn test_go_codegen_basic() {
    let input = r#"
        loke main() -> kain {
            kain age = ၂၀;
            hlyin (age > ၁၈) {
                pya("adult");
            }
            pyan 0;
        }
    "#;

    let go_code = go_of(input);

    assert!(go_code.contains("package main"));
    assert!(go_code.contains("import ("));
    assert!(go_code.contains("\"fmt\""));
    assert!(go_code.contains("func main()"));
    assert!(go_code.contains("var age int64 = 20"));
    assert!(go_code.contains("fmt.Println(\"adult\")"));
}

#[test]
fn test_go_codegen_string_concat() {
    let input = r#"
        loke main() -> kain {
            sar name = "Aung";
            sar greeting = "Hello, " + name + "!";
            pya(greeting);
            pyan 0;
        }
    "#;

    let go_code = go_of(input);

    assert!(go_code.contains("var name string = \"Aung\""));
    // Go string concat is just +, no special function needed
    assert!(go_code.contains("+"));
    assert!(!go_code.contains("mlang_concat")); // Should NOT have C-style concat
}

#[test]
fn test_go_codegen_for_in_loop() {
    let input = r#"
        loke main() -> kain {
            su<kain> numbers = [၁, ၂, ၃];
            pat item htae numbers {
                pya(item);
            }
            pyan 0;
        }
    "#;

    let go_code = go_of(input);

    assert!(go_code.contains("[]int64{1, 2, 3}"));
    assert!(go_code.contains("for _, item := range numbers"));
}

#[test]
fn test_go_codegen_while_loop() {
    let input = r#"
        loke main() -> kain {
            kain i = 0;
            pat (i < 5) {
                pya(i);
                i = i + 1;
            }
            pyan 0;
        }
    "#;

    let go_code = go_of(input);

    // Go: `for i < 5 { ... }` — no "while" keyword
    assert!(go_code.contains("for (i < 5)"));
}

#[test]
fn test_go_codegen_hashmap() {
    let input = r#"
        loke main() -> kain {
            twe<sar, kain> ages = {"alice": 30, "bob": 25};
            pyan 0;
        }
    "#;

    let go_code = go_of(input);

    assert!(go_code.contains("map[string]int64"));
}

#[test]
fn test_go_codegen_function_with_params() {
    let input = r#"
        loke add(kain a, kain b) -> kain {
            pyan a + b;
        }

        loke main() -> kain {
            kain result = add(10, 20);
            pya(result);
            pyan 0;
        }
    "#;

    let go_code = go_of(input);

    assert!(go_code.contains("func add(a int64, b int64) int64"));
    assert!(go_code.contains("return (a + b)"));
    assert!(go_code.contains("add(10, 20)"));
}

#[test]
fn test_go_codegen_unicode_identifiers() {
    // Go supports Unicode identifiers natively — no hex encoding needed
    let input = r#"
        loke main() -> kain {
            kain age = 25;
            pya(age);
            pyan 0;
        }
    "#;

    let go_code = go_of(input);

    // Should use clean names, not hex-encoded
    assert!(!go_code.contains("mlang_")); // No hex encoding!
    assert!(go_code.contains("age"));
}

#[test]
fn test_go_codegen_read_input() {
    let input = r#"
        loke main() -> kain {
            sar name = phat("Enter name: ");
            pya(name);
            pyan 0;
        }
    "#;

    let go_code = go_of(input);

    assert!(go_code.contains("mlangReadInput(\"Enter name: \")"));
    assert!(go_code.contains("\"bufio\""));
    assert!(go_code.contains("\"os\""));
    assert!(go_code.contains("func mlangReadInput(prompt string) string"));
}

#[test]
fn test_go_codegen_if_elif_else() {
    let input = r#"
        loke main() -> kain {
            kain age = 20;
            hlyin (age > 18) {
                pya("adult");
            } mo hlyin (age == 18) {
                pya("just 18");
            } mo {
                pya("young");
            }
            pyan 0;
        }
    "#;

    let go_code = go_of(input);

    assert!(go_code.contains("if (age > 18)"));
    assert!(go_code.contains("} else if (age == 18)"));
    assert!(go_code.contains("} else {"));
}

#[test]
fn test_go_codegen_phase3_channel_ops() {
    let input = r#"
        loke producer(laung<kain> ch) -> amhar {
            naut_sone ch.close();
            ch.send(100);
            pyan bhala;
        }

        loke main() -> kain {
            laung<kain> ch = laung<kain>(2);
            kyoe producer(ch);
            kain first = ch.recv();
            pyan 0;
        }
    "#;

    let go_code = go_of(input);

    assert!(go_code.contains("func producer(ch chan int64) error"));
    assert!(go_code.contains("defer close(ch)"));
    assert!(go_code.contains("ch <- 100"));
    assert!(go_code.contains("var ch chan int64 = make(chan int64, 2)"));
    assert!(go_code.contains("go producer(ch)"));
    assert!(go_code.contains("var first int64 = <-ch"));
}

#[test]
fn test_go_codegen_indexed_and_classic_for() {
    let input = r#"
        loke main() -> kain {
            su<kain> costs = [1, 2, 3];
            pat (idx, cost) htae costs {
                hlyin (idx == 0) {
                    shar;
                }
                hlyin (cost > 2) {
                    yut;
                }
                pya(cost);
            }
            pat (kain i = 0; i < 3; i = i + 1) {
                pya(i);
            }
            pyan 0;
        }
    "#;

    let go_code = go_of(input);

    assert!(go_code.contains("for idx, cost := range costs"));
    assert!(go_code.contains("continue"));
    assert!(go_code.contains("break"));
    assert!(go_code.contains("for i := 0; (i < 3); i = (i + 1)"));
}

#[test]
fn test_go_codegen_test_decl_baung_and_closure() {
    let input = r#"
        set_sae smoke_test {
            baung ctx = baung(1000);
            amhar close_err = ctx.close();
            hlyin (close_err != bhala) {
                pyan close_err;
            }
            pyan bhala;
        }

        loke main() -> kain {
            loke(kain) -> kain inc = loke(kain v) -> kain {
                pyan v + 1;
            };
            kain out = inc(41);
            pya(out);
            pyan 0;
        }
    "#;

    let go_code = go_of(input);

    assert!(go_code.contains("\"context\""));
    assert!(go_code.contains("\"time\""));
    assert!(go_code.contains("type mlangBaung struct"));
    assert!(go_code.contains("func mlangNewBaung(timeoutMs int64) mlangBaung"));
    assert!(go_code.contains("func MlangTestSmokeTest() error"));
    assert!(go_code.contains("var ctx mlangBaung = mlangNewBaung(1000)"));
    assert!(go_code.contains("ctx.Close()"));
    assert!(go_code.contains("var inc"));
    assert!(go_code.contains("func(v int64) int64"));
}

#[test]
fn test_go_codegen_http_server_lowering() {
    let input = r#"
        yu "kainn/http";

        loke hello(http.Request req, http.ResponseWriter w) -> amhar {
            pyan w.write("Mingalabar from M-Lang!");
        }

        loke main() -> kain {
            amhar handle_err = http.handle("/", hello);
            amhar listen_err = http.listen(":18080");
            pya(handle_err);
            pya(listen_err);
            pyan 0;
        }
    "#;

    let go_code = go_of(input);

    assert!(go_code.contains("\"net/http\""));
    assert!(go_code.contains("func hello(req *http.Request, w http.ResponseWriter) error"));
    assert!(go_code.contains("http.HandleFunc(\"/\""));
    assert!(go_code.contains("hello(r, w)"));
    assert!(go_code.contains("w.Write([]byte(\"Mingalabar from M-Lang!\"))"));
    assert!(go_code.contains("http.ListenAndServe(\":18080\", nil)"));
}

#[test]
fn go_codegen_exact_small_program() {
    let go_code = go_of("loke main() -> kain {\n    kain x = 1;\n    pya(x);\n    pyan 0;\n}\n");
    assert_eq!(
        go_code,
        "package main\n\nimport (\n\t\"fmt\"\n)\n\nfunc main() {\n\tvar x int64 = 1\n\t_ = x\n\tfmt.Println(x)\n}\n\n"
    );
}

#[test]
fn go_codegen_keywords_and_conversions() {
    let program = Program {
        statements: vec![
            Statement::Let {
                name: "type".to_string(),
                value: Expression::StringLiteral("7".to_string()),
                ty: Type::Sar,
                name_span: Default::default(),
            },
            Statement::Print {
                value: Expression::TypeConversion {
                    target_type: Type::Kain,
                    argument: Box::new(Expression::Identifier("type".to_string())),
                },
            },
            Statement::While {
                condition: Expression::BooleanLiteral(false),
                body: BlockStatement { statements: vec![Statement::Break] },
            },
        ],
    };
    let mut g = GoCodeGenerator::new();
    let out = g.generate(&program);
    assert!(out.contains("\t\"strconv\"\n"));
    assert!(out.contains("var ml_type string = \"7\"\n_ = ml_type\n"));
    assert!(out.contains("fmt.Println(func() int64 { v, _ := strconv.Atoi(ml_type); return int64(v) }())\n"));
    assert!(out.contains("for false {\n\tbreak\n}\n"));
    assert_eq!(g.output, out);
}
