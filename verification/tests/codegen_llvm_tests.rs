use mlang::ast::{BlockStatement, Expression, Program, Span, Statement, Type};
use mlang::codegen_llvm::{
    collect_closure_captures, escape_llvm_bytes, fn_ptr_type, llvm_type_size, lookup_struct, map_suffix,
    sanitize_ident, type_tag, type_to_llvm, CaptureScope, StructMeta,
};
use mlang::lexer::Lexer;
use mlang::parser::Parser;

fn parse_program(input: &str) -> Program {
    let mut parser = Parser::new(Lexer::new(input));
    let program = parser.parse_program().unwrap();
    assert!(parser.errors.is_empty(), "Parse errors: {:?}", parser.errors);
    program
}

fn chars(s: &str) -> Vec<char> {
    s.chars().collect()
}

#[test]
fn string_constants_escape_bytes() {
    assert_eq!(escape_llvm_bytes("a\"b\\c\n"), "a\\22b\\5Cc\\0A");
    assert_eq!(escape_llvm_bytes("é~"), "\\C3\\A9~");
    assert_eq!(escape_llvm_bytes(""), "");
}

#[test]
fn identifiers_are_sanitized() {
    assert_eq!(sanitize_ident("9lives-x"), "_lives_x");
    assert_eq!(sanitize_ident("a9_b"), "a9_b");
    assert_eq!(sanitize_ident(""), "unnamed");
    assert_eq!(sanitize_ident("ကာ"), "__");
}

#[test]
fn type_tags_sizes_and_function_types() {
    assert_eq!(type_tag("{ i64, i8* }"), "i64_i8ptr");
    assert_eq!(type_tag("%struct.Cart*"), "struct_Cartptr");
    assert_eq!(map_suffix("i8*", "i64"), "i8ptr_i64");
    assert_eq!(llvm_type_size("i1"), Ok(1));
    assert_eq!(llvm_type_size("double"), Ok(8));
    assert_eq!(llvm_type_size("%struct.Cart*"), Ok(8));
    assert_eq!(
        llvm_type_size("{ i64 }"),
        Err("LLVM backend does not yet know array element size for { i64 }".to_string())
    );
    assert_eq!(fn_ptr_type(&chars("i64"), &vec![chars("i64"), chars("i8*")]), "i64 (i64, i8*)*");
    assert_eq!(fn_ptr_type(&chars("void"), &vec![]), "void ()*");
}

#[test]
fn types_lower_to_llvm() {
    let reg = vec![(
        "Cart".to_string(),
        StructMeta { llvm_name: "%struct.Cart".to_string(), fields: vec![] },
    )];
    assert_eq!(type_to_llvm(&Type::Array(Box::new(Type::Sar)), &reg), Ok("i8**".to_string()));
    assert_eq!(
        type_to_llvm(&Type::HashMap(Box::new(Type::Sar), Box::new(Type::Kain)), &reg),
        Ok("%map.i8ptr_i64*".to_string())
    );
    assert_eq!(type_to_llvm(&Type::Struct("Cart".to_string()), &reg), Ok("%struct.Cart".to_string()));
    assert_eq!(lookup_struct(&reg, "%struct.Cart"), Some("%struct.Cart".to_string()));
    assert_eq!(
        type_to_llvm(&Type::Struct("Shop".to_string()), &reg),
        Err("Unknown struct type in type lowering: Shop".to_string())
    );
    assert_eq!(
        type_to_llvm(&Type::Tuple(vec![Type::Kain, Type::Error]), &reg),
        Ok("{ i64, i8* }".to_string())
    );
    assert_eq!(type_to_llvm(&Type::Tuple(vec![]), &reg), Err("Empty tuple type is not supported".to_string()));
    assert_eq!(
        type_to_llvm(
            &Type::Function { params: vec![Type::Kain], return_type: Box::new(Type::Kain) },
            &reg
        ),
        Ok("i64 (i64)*".to_string())
    );
    assert_eq!(
        type_to_llvm(&Type::Channel(Box::new(Type::Kain)), &reg),
        Err("LLVM Phase1 type not supported yet: Channel(Kain)".to_string())
    );
}

fn closure_in_main(program: &Program) -> (Vec<(String, Type, Span)>, BlockStatement) {
    for stmt in &program.statements {
        if let Statement::FunctionDecl { name, body, .. } = stmt {
            if name == "main" {
                if let Statement::Let { value: Expression::FunctionCall { arguments, .. }, .. } = &body.statements[1] {
                    if let Expression::ClosureLiteral { parameters, body, .. } = &arguments[0] {
                        return (parameters.clone(), body.clone());
                    }
                }
            }
        }
    }
    panic!("no closure found");
}

#[test]
fn closure_captures_outer_variables_once() {
    let program = parse_program(
        r#"
            loke apply_fee(loke(kain) -> kain transform, kain amount) -> kain {
                pyan transform(amount);
            }

            loke main() -> kain {
                kain fee = 250;
                kain after_fee = apply_fee(loke(kain amount) -> kain {
                    kain local = fee + fee;
                    pyan amount - fee + local + rate;
                }, 5000);
                pyan after_fee;
            }
            "#,
    );
    let (params, body) = closure_in_main(&program);
    let scope = CaptureScope {
        functions: vec!["apply_fee".to_string(), "main".to_string()],
        variables: vec![
            ("fee".to_string(), "i64".to_string()),
            ("amount".to_string(), "double".to_string()),
            ("rate".to_string(), "i64".to_string()),
            ("fee".to_string(), "i1".to_string()),
        ],
    };
    let caps = collect_closure_captures(&params, &body, &scope);
    let got: Vec<(String, String)> = caps.into_iter().map(|c| (c.name, c.llvm_ty)).collect();
    assert_eq!(
        got,
        vec![("fee".to_string(), "i1".to_string()), ("rate".to_string(), "i64".to_string())]
    );
}
