use mlang::analysis::{
    analyze, diagnostics, document_formatting, find_definition, format_type, get_word_at_position, SourceRange,
};
use mlang::ast::Type;
use mlang::completion::{get_completions, keyword_completions, CompletionKind};
use mlang::hover::{get_hover, keyword_docs};
use mlang::semantic_tokens::{get_semantic_tokens, legend, token_length, token_type_index, SemanticTokenEntry};
use mlang::token::{DecimalLiteral, TokenKind};
use ropey::Rope;

const PROGRAM: &str = "loke add(kain a, kain b) -> kain {\n    pyan a + b;\n}\n\nloke main() -> kain {\n    kain total = add(1, 2);\n    pya(total);\n    pyan 0;\n}\n";

#[test]
fn words_are_found_at_the_cursor() {
    let rope = Rope::from_str("kain total = 1;\nsar ကား_1 = x;\r\nend");
    assert_eq!(get_word_at_position(&rope, 0, 7), Some("total".to_string()));
    assert_eq!(get_word_at_position(&rope, 0, 5), Some("total".to_string()));
    assert_eq!(get_word_at_position(&rope, 0, 11), None);
    assert_eq!(get_word_at_position(&rope, 1, 5), Some("ကား_1".to_string()));
    assert_eq!(get_word_at_position(&rope, 2, 1), Some("end".to_string()));
    assert_eq!(get_word_at_position(&rope, 2, 3), None);
    assert_eq!(get_word_at_position(&rope, 3, 0), None);
}

#[test]
fn types_are_shown_for_editors() {
    assert_eq!(format_type(&Type::Array(Box::new(Type::Kain))), "su<kain (int)> (array)");
    assert_eq!(
        format_type(&Type::HashMap(Box::new(Type::Sar), Box::new(Type::Sit))),
        "twe<sar (string), sit (bool)> (map)"
    );
    assert_eq!(
        format_type(&Type::Function { params: vec![Type::Kain, Type::Error], return_type: Box::new(Type::Nil) }),
        "loke(kain (int), amhar (error)) -> bhala (nil) (function)"
    );
    assert_eq!(format_type(&Type::Tuple(vec![Type::DaTha])), "(da_tha (float64)) (tuple)");
}

#[test]
fn analysis_finds_symbols_and_definitions() {
    let result = analyze(PROGRAM);
    assert!(result.parse_errors.is_empty());
    assert!(result.type_errors.is_empty());
    let names: Vec<&str> = result.symbols.iter().map(|s| s.name.as_str()).collect();
    assert_eq!(names, vec!["add", "a", "b", "main", "total"]);
    let rope = Rope::from_str(PROGRAM);
    assert_eq!(
        find_definition(&rope, 5, 18, &result),
        Some(SourceRange { start_line: 0, start_character: 5, end_line: 0, end_character: 8 })
    );
    assert_eq!(find_definition(&rope, 5, 4, &result), None);
    assert!(diagnostics(&result).is_empty());
}

#[test]
fn diagnostics_locate_errors() {
    let result = analyze("loke main() -> kain {\n    pyan hman;\n}\n");
    let diags = diagnostics(&result);
    assert!(!diags.is_empty());
    for d in &diags {
        assert_eq!(d.source, "mlang-typecheck");
        assert_eq!(d.range, SourceRange { start_line: 0, start_character: 0, end_line: 0, end_character: 1 });
    }
    let broken = analyze("kain = ;\n");
    let diags = diagnostics(&broken);
    assert!(!broken.parse_errors.is_empty());
    assert_eq!(diags[0].source, "mlang");
    assert_eq!(diags[0].message, broken.parse_errors[0].message);
    assert_eq!(diags[0].range.start_line as usize, broken.parse_errors[0].line - 1);
    assert_eq!(diags[0].range.end_character, diags[0].range.start_character + 1);
}

#[test]
fn formatting_replaces_the_whole_document() {
    let rope = Rope::from_str("loke main() -> kain {\npyan 0;\n}");
    let edits = document_formatting(&rope).unwrap();
    assert_eq!(edits.len(), 1);
    assert_eq!(edits[0].new_text, "loke main() -> kain {\n    pyan 0;\n}\n");
    assert_eq!(edits[0].range, SourceRange { start_line: 0, start_character: 0, end_line: 2, end_character: 1 });
    let formatted = Rope::from_str("loke main() -> kain {\n    pyan 0;\n}\n");
    assert!(document_formatting(&formatted).unwrap().is_empty());
    assert!(document_formatting(&Rope::from_str("kain = ;\n")).is_err());
}

#[test]
fn hover_shows_keyword_docs_then_symbols() {
    assert!(keyword_docs("kain").unwrap().starts_with("**kain** — Integer type declaration"));
    assert_eq!(keyword_docs("hman"), Some("**hman** — Boolean literal `true`"));
    assert_eq!(keyword_docs("total"), None);
    let result = analyze(PROGRAM);
    let rope = Rope::from_str(PROGRAM);
    assert_eq!(
        get_hover(&rope, 0, 1, Some(&result)).unwrap(),
        "**loke** — Function declaration\n\nDefine a new function.\n\n```\nloke name(params) -> return_type {\n    // ...\n}\n```"
    );
    assert_eq!(
        get_hover(&rope, 0, 6, Some(&result)).unwrap(),
        "**function** `add`\n\n```\nloke add(kain (int) a, kain (int) b) -> kain (int)\n```"
    );
    assert_eq!(
        get_hover(&rope, 5, 11, Some(&result)).unwrap(),
        "**variable** `total`\n\nType: `kain (int)`"
    );
    assert_eq!(get_hover(&rope, 5, 11, None), None);
    assert_eq!(get_hover(&rope, 1, 0, Some(&result)), None);
}

#[test]
fn completions_offer_keywords_then_symbols() {
    let keywords = keyword_completions();
    assert_eq!(keywords.len(), 25);
    assert_eq!(keywords[0].label, "kain");
    assert_eq!(keywords[0].kind, CompletionKind::Keyword);
    assert_eq!(keywords[0].insert_text.as_deref(), Some("kain ${1:name} = ${2:0};"));
    assert!(keywords[0].snippet);
    assert_eq!(keywords[24].label, "main (main function)");
    assert_eq!(keywords[24].kind, CompletionKind::Snippet);
    let result = analyze(PROGRAM);
    let items = get_completions(None, 0, 0, Some(&result));
    assert_eq!(items.len(), 30);
    assert_eq!(items[25].label, "add");
    assert_eq!(items[25].kind, CompletionKind::Function);
    assert_eq!(items[25].detail.as_deref(), Some("fn(kain (int) a, kain (int) b) -> kain (int)"));
    assert_eq!(items[26].detail.as_deref(), Some("param: kain (int)"));
    assert_eq!(items[29].detail.as_deref(), Some("variable: kain (int)"));
    assert_eq!(items[29].insert_text, None);
    assert!(!items[29].snippet);
    assert_eq!(get_completions(None, 0, 0, None).len(), 25);
}

#[test]
fn semantic_tokens_are_delta_encoded() {
    let types = legend();
    assert_eq!(types.token_types, vec!["keyword", "variable", "function", "number", "string", "operator", "type", "comment"]);
    assert!(types.token_modifiers.is_empty());
    assert_eq!(token_type_index(&TokenKind::Loke), Some(0));
    assert_eq!(token_type_index(&TokenKind::Kain), Some(6));
    assert_eq!(token_type_index(&TokenKind::LParen), None);
    assert_eq!(token_length(&TokenKind::NautSone), 9);
    assert_eq!(token_length(&TokenKind::Number(-120)), 4);
    assert_eq!(token_length(&TokenKind::StringLiteral("ab".to_string())), 4);
    assert_eq!(token_length(&TokenKind::FloatLiteral(DecimalLiteral { whole: 3, fraction: vec![1, 4, 0] })), 4);
    let toks = get_semantic_tokens("kain x = 10;\n  pya(x);\n");
    let entry = |dl, ds, len, ty| SemanticTokenEntry {
        delta_line: dl,
        delta_start: ds,
        length: len,
        token_type: ty,
        token_modifiers_bitset: 0,
    };
    assert_eq!(
        toks,
        vec![
            entry(0, 0, 4, 6),
            entry(0, 5, 1, 1),
            entry(0, 2, 1, 5),
            entry(0, 2, 2, 3),
            entry(1, 2, 3, 0),
            entry(0, 4, 1, 1),
        ]
    );
}
