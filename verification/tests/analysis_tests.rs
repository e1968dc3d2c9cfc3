use mlang::analysis::{collect_symbols, SymbolKindInfo};
use mlang::lexer::Lexer;
use mlang::parser::Parser;

#[test]
fn collects_declared_names_with_positions() {
    let src = "loke add(kain a, kain b) -> kain {\n    kain c = a + b;\n    pyan c;\n}\n";
    let lexer = Lexer::new(src);
    let mut parser = Parser::new(lexer);
    let program = parser.parse_program().unwrap();
    let syms = collect_symbols(&program);
    let names: Vec<&str> = syms.iter().map(|s| s.name.as_str()).collect();
    assert_eq!(names, vec!["add", "a", "b", "c"]);
    assert_eq!(syms[0].kind, SymbolKindInfo::Function);
    assert_eq!(syms[0].parameters.len(), 2);
    assert_eq!(syms[1].kind, SymbolKindInfo::Parameter);
    assert_eq!(syms[3].kind, SymbolKindInfo::Variable);
    assert_eq!(syms[0].line, 0);
    assert_eq!(syms[3].line, 1);
}

#[test]
fn collects_loop_and_struct_names() {
    let src = "pone Point {\n    kain x;\n}\nloke main() -> kain {\n    pat item htae [1, 2] {\n        pya(item);\n    }\n    pyan 0;\n}\n";
    let lexer = Lexer::new(src);
    let mut parser = Parser::new(lexer);
    let program = parser.parse_program().unwrap();
    let syms = collect_symbols(&program);
    assert_eq!(syms[0].name, "Point");
    assert_eq!(syms[0].kind, SymbolKindInfo::Struct);
    assert_eq!(syms[0].parameters.len(), 1);
    let item = syms.iter().find(|s| s.name == "item").unwrap();
    assert_eq!(item.kind, SymbolKindInfo::Variable);
    assert!(item.ty.is_some());
}
