use mlang::formatter::format_source;

#[test]
fn test_format_simple_program() {
    let input = "loke main() -> kain {\nkain age = ၂၀;\npyan ၀;\n}";
    let result = format_source(input).unwrap();
    let expected = "loke main() -> kain {\n    kain age = ၂၀;\n    pyan ၀;\n}\n";
    assert_eq!(result, expected);
}

#[test]
fn test_format_if_else() {
    let input = "loke main() -> kain {\nhlyin (x > ၁၈) {\npya(\"yes\");\n}mo{\npya(\"no\");\n}\npyan ၀;\n}";
    let result = format_source(input).unwrap();
    assert!(result.contains("} mo {"));
    assert!(result.contains("    hlyin (x > ၁၈) {"));
}

#[test]
fn test_format_preserves_binary_parentheses() {
    let input = "loke main() -> kain {\nkain x = (၁ + ၂) * ၃;\npyan x;\n}";
    let result = format_source(input).unwrap();
    assert!(result.contains("kain x = (၁ + ၂) * ၃;"));
}

#[test]
fn test_format_wraps_long_array() {
    let input = "loke main() -> kain {\nsu<kain> xs = [၁, ၂, ၃, ၄, ၅];\npyan ၀;\n}";
    let result = format_source(input).unwrap();
    assert!(result.contains("su<kain> xs = [\n"));
    assert!(result.contains("        ၁,"));
}

#[test]
fn test_format_wraps_long_function_params() {
    let input = "loke veryLongFunctionName(kain firstArg, kain secondArg, kain thirdArg, kain fourthArg) -> kain {\npyan firstArg;\n}";
    let result = format_source(input).unwrap();
    assert!(result.contains("loke veryLongFunctionName(\n"));
    assert!(result.contains("    kain firstArg,"));
}

#[test]
fn test_format_preserves_myanmar_numerals() {
    let input = "loke main() -> kain {\nkain x = ၁၂၃;\npyan ၀;\n}";
    let result = format_source(input).unwrap();
    assert!(result.contains("၁၂၃"));
    assert!(result.contains("၀"));
}

#[test]
fn test_format_preserves_ascii_numerals() {
    let input = "loke main() -> kain {\nkain x = 123;\npyan 0;\n}";
    let result = format_source(input).unwrap();
    assert!(result.contains("123"));
    assert!(result.contains("0"));
}

#[test]
fn test_format_comment_preserved() {
    let input = "// this is a comment\nloke main() -> kain {\npyan ၀;\n}";
    let result = format_source(input).unwrap();
    assert!(result.contains("// this is a comment"));
}

#[test]
fn test_format_elif_chain() {
    let input = "loke main() -> kain {\nhlyin (x == ၁) {\npya(\"one\");\n} mo hlyin (x == ၂) {\npya(\"two\");\n} mo {\npya(\"other\");\n}\npyan ၀;\n}";
    let result = format_source(input).unwrap();
    assert!(result.contains("} mo hlyin (x == ၂) {"));
    assert!(result.contains("} mo {"));
}

#[test]
fn test_format_trailing_newline() {
    let input = "loke main() -> kain {\npyan ၀;\n}";
    let result = format_source(input).unwrap();
    assert!(result.ends_with('\n'));
    assert!(!result.ends_with("\n\n"));
}

#[test]
fn test_format_imports_to_quoted_style() {
    let input = "yu json;\nyu \"file\";\n";
    let result = format_source(input).unwrap();
    assert!(result.contains("yu \"json\";"));
    assert!(result.contains("yu \"file\";"));
}

#[test]
fn format_comment_block_is_followed_by_blank_line() {
    let input = "// a\n// b\nyu json;";
    let result = format_source(input).unwrap();
    assert_eq!(result, "// a\n// b\n\nyu \"json\";\n");
}

#[test]
fn format_empty_source_is_one_newline() {
    assert_eq!(format_source("").unwrap(), "\n");
}

#[test]
fn format_blank_line_around_block_statements() {
    let input = "kain a = 1;\nloke f() -> kain {\npyan 2;\n}\nkain b = 3;";
    let result = format_source(input).unwrap();
    assert_eq!(
        result,
        "kain a = 1;\n\nloke f() -> kain {\n    pyan 2;\n}\n\nkain b = 3;\n"
    );
}

#[test]
fn format_short_array_stays_inline() {
    let input = "su<kain> xs = [1, 2, 3];";
    assert_eq!(format_source(input).unwrap(), "su<kain> xs = [1, 2, 3];\n");
}

#[test]
fn format_keeps_parentheses_that_change_meaning() {
    let input = "kain x = 1 - (2 - 3);";
    assert_eq!(format_source(input).unwrap(), "kain x = 1 - (2 - 3);\n");
    let input = "kain x = 8 / (4 / 2);";
    assert_eq!(format_source(input).unwrap(), "kain x = 8 / (4 / 2);\n");
    let input = "kain x = 2 * (3 / 2);";
    assert_eq!(format_source(input).unwrap(), "kain x = 2 * (3 / 2);\n");
    let input = "kain x = 1 + (2 + 3);";
    assert_eq!(format_source(input).unwrap(), "kain x = 1 + 2 + 3;\n");
    let input = "sit y = a < (b < c);";
    assert_eq!(format_source(input).unwrap(), "sit y = a < (b < c);\n");
}

#[test]
fn format_struct_and_map_literals() {
    let input = "pone P {\nkain x;\nsar y;\n}\ntwe<sar, kain> m = {\"a\": 1};";
    let result = format_source(input).unwrap();
    assert_eq!(
        result,
        "pone P {\n    kain x;\n    sar y;\n}\n\ntwe<sar, kain> m = {\"a\": 1};\n"
    );
}

#[test]
fn format_reports_parse_errors() {
    let result = format_source("kain = ;");
    match result {
        Err(msgs) => {
            assert!(!msgs.is_empty());
            assert!(msgs[0].starts_with("[1:"));
        }
        Ok(_) => panic!("expected parse errors"),
    }
}
