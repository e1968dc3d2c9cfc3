use mlang::lexer::{tokenize_all, Lexer};
use mlang::token::TokenKind;

#[test]
fn test_next_token() {
    let input = r#"
            // this is a comment
            loke main() -> kain {
                kain age = ၂၀;
                su<kain> numbers = [၁, ၂];
                twe<sar, kain> dict = {"a": 1};
                phat("name?");
                yu test;
                pat item htae numbers {
                    pya(item);
                }
                hlyin (age > ၁၈) {
                    pya("adult");
                } mo {
                    pya("child");
                }
                pyan ၀;
            }
        "#;

    let mut lexer = Lexer::new(input);
    let id = |s: &str| TokenKind::Identifier(s.to_string());
    let st = |s: &str| TokenKind::StringLiteral(s.to_string());
    let expected = vec![
        TokenKind::Comment(" this is a comment".to_string()),
        TokenKind::Loke, id("main"), TokenKind::LParen, TokenKind::RParen, TokenKind::Arrow, TokenKind::Kain, TokenKind::LBrace,
        TokenKind::Kain, id("age"), TokenKind::Assign, TokenKind::Number(20), TokenKind::Semicolon,
        TokenKind::Su, TokenKind::LessThan, TokenKind::Kain, TokenKind::GreaterThan, id("numbers"), TokenKind::Assign, TokenKind::LBracket, TokenKind::Number(1), TokenKind::Comma, TokenKind::Number(2), TokenKind::RBracket, TokenKind::Semicolon,
        TokenKind::Twe, TokenKind::LessThan, TokenKind::Sar, TokenKind::Comma, TokenKind::Kain, TokenKind::GreaterThan, id("dict"), TokenKind::Assign, TokenKind::LBrace, st("a"), TokenKind::Colon, TokenKind::Number(1), TokenKind::RBrace, TokenKind::Semicolon,
        TokenKind::Phat, TokenKind::LParen, st("name?"), TokenKind::RParen, TokenKind::Semicolon,
        TokenKind::Yu, id("test"), TokenKind::Semicolon,
        TokenKind::Pat, id("item"), TokenKind::Htae, id("numbers"), TokenKind::LBrace,
        TokenKind::Pya, TokenKind::LParen, id("item"), TokenKind::RParen, TokenKind::Semicolon,
        TokenKind::RBrace,
        TokenKind::Hlyin, TokenKind::LParen, id("age"), TokenKind::GreaterThan, TokenKind::Number(18), TokenKind::RParen, TokenKind::LBrace,
        TokenKind::Pya, TokenKind::LParen, st("adult"), TokenKind::RParen, TokenKind::Semicolon,
        TokenKind::RBrace, TokenKind::Mo, TokenKind::LBrace,
        TokenKind::Pya, TokenKind::LParen, st("child"), TokenKind::RParen, TokenKind::Semicolon,
        TokenKind::RBrace,
        TokenKind::Pyan, TokenKind::Number(0), TokenKind::Semicolon,
        TokenKind::RBrace, TokenKind::Eof,
    ];

    for expected_tok in expected {
        let tok = lexer.next_token();
        assert_eq!(tok.kind, expected_tok);
    }
}

#[test]
fn lexer_positions_count_lines_and_columns() {
    let mut lexer = Lexer::new("kain\n  x");
    let a = lexer.next_token();
    assert_eq!((a.line, a.column), (1, 1));
    let b = lexer.next_token();
    assert_eq!(b.kind, TokenKind::Identifier("x".to_string()));
    assert_eq!((b.line, b.column), (2, 3));
}

#[test]
fn lexer_end_of_input_repeats() {
    let mut lexer = Lexer::new("");
    assert_eq!(lexer.next_token().kind, TokenKind::Eof);
    assert_eq!(lexer.next_token().kind, TokenKind::Eof);
}

#[test]
fn lexer_reads_keywords_of_later_phases() {
    let toks = tokenize_all("atote pay laung baung yut shar kyoe naut_sone set_sae");
    let kinds: Vec<TokenKind> = toks.into_iter().map(|t| t.kind).collect();
    assert_eq!(
        kinds,
        vec![
            TokenKind::Atote,
            TokenKind::Pay,
            TokenKind::Laung,
            TokenKind::Baung,
            TokenKind::Break,
            TokenKind::Continue,
            TokenKind::Kyoe,
            TokenKind::NautSone,
            TokenKind::SetSae,
            TokenKind::Eof,
        ]
    );
}

#[test]
fn tokenize_all_stops_at_first_end_of_input() {
    let toks = tokenize_all("a // note\n1");
    assert_eq!(toks.len(), 4);
    assert_eq!(toks[1].kind, TokenKind::Comment(" note".to_string()));
    assert_eq!(toks[2].kind, TokenKind::Number(1));
    assert_eq!(toks[3].kind, TokenKind::Eof);
}
