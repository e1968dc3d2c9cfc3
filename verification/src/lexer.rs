//! Tokenizer for M-Lang source text.
use vstd::prelude::*;

use crate::text::{
    char_is_alphabetic, chars_of, is_ascii_digit, is_ascii_digit_spec, is_myanmar_digit,
    is_myanmar_digit_spec, is_whitespace, is_whitespace_spec, str_eq, string_of, trim_end_spec,
    trim_start_spec, alphabetic,
};
use crate::token::{DecimalLiteral, KindModel, Token, TokenKind, TokenTag};

verus! {

/// The character at `i`, or `'\0'` past the end of the input.
pub open spec fn char_at(s: Seq<char>, i: int) -> char {
    if 0 <= i < s.len() {
        s[i]
    } else {
        '\0'
    }
}

/// Position, line and column of the lexer (the column counts the characters
/// read since the start of the line, the current one included).
pub struct LexState {
    pub pos: int,
    pub line: int,
    pub col: int,
}

/// A token as the lexer produces it: kind, the line and column where it
/// starts, and the lexer state after it.
pub struct Lexed {
    pub kind: KindModel,
    pub line: int,
    pub col: int,
    pub next: LexState,
}

pub open spec fn is_letter_or_myanmar_spec(c: char) -> bool {
    alphabetic(c) || c == '_' || ('\u{1000}' <= c && c <= '\u{109F}')
}

pub open spec fn is_number_char(c: char) -> bool {
    is_ascii_digit_spec(c) || is_myanmar_digit_spec(c)
}

/// The value of a decimal digit, ASCII or Myanmar.
pub open spec fn digit_value(c: char) -> int {
    if is_ascii_digit_spec(c) {
        c as int - '0' as int
    } else {
        c as int - 0x1040
    }
}

/// Skips whitespace; a newline moves to the next line and restarts the column.
pub open spec fn skip_ws(s: Seq<char>, st: LexState) -> LexState
    decreases s.len() - st.pos,
{
    if 0 <= st.pos < s.len() && is_whitespace_spec(s[st.pos]) {
        if s[st.pos] == '\n' {
            skip_ws(s, LexState { pos: st.pos + 1, line: st.line + 1, col: 1 })
        } else {
            skip_ws(s, LexState { pos: st.pos + 1, line: st.line, col: st.col + 1 })
        }
    } else {
        st
    }
}

/// The end of the run of digits starting at `i`.
pub open spec fn digits_end(s: Seq<char>, i: int) -> int
    decreases s.len() - i,
{
    if 0 <= i < s.len() && is_number_char(s[i]) {
        digits_end(s, i + 1)
    } else {
        i
    }
}

/// The end of the run of identifier characters starting at `i`.
pub open spec fn ident_end(s: Seq<char>, i: int) -> int
    decreases s.len() - i,
{
    if 0 <= i < s.len() && is_letter_or_myanmar_spec(s[i]) {
        ident_end(s, i + 1)
    } else {
        i
    }
}

/// The first position at or after `i` that holds `stop` or `'\0'`, or the end.
pub open spec fn scan_until(s: Seq<char>, i: int, stop: char) -> int
    decreases s.len() - i,
{
    if 0 <= i < s.len() && s[i] != stop && s[i] != '\0' {
        scan_until(s, i + 1, stop)
    } else {
        i
    }
}

/// The integer value of the digits in `s[i..j]`, in 64-bit two's complement
/// arithmetic.
pub open spec fn digits_value(s: Seq<char>, i: int, j: int) -> i64
    decreases j - i,
{
    if j <= i {
        0
    } else {
        (digits_value(s, i, j - 1) * 10 + digit_value(s[j - 1])) as i64
    }
}

/// The digit values of `s[i..j]`.
pub open spec fn digit_values(s: Seq<char>, i: int, j: int) -> Seq<u8>
    decreases j - i,
{
    if j <= i {
        Seq::empty()
    } else {
        digit_values(s, i, j - 1).push(digit_value(s[j - 1]) as u8)
    }
}

/// Keywords of the language and the token each one stands for.
pub open spec fn lookup_ident_spec(w: Seq<char>) -> KindModel {
    if w == "kain"@ {
        KindModel::Plain(TokenTag::Kain)
    } else if w == "sar"@ {
        KindModel::Plain(TokenTag::Sar)
    } else if w == "sit"@ {
        KindModel::Plain(TokenTag::Sit)
    } else if w == "da_tha"@ {
        KindModel::Plain(TokenTag::DaTha)
    } else if w == "hman"@ {
        KindModel::Plain(TokenTag::Hman)
    } else if w == "hmar"@ {
        KindModel::Plain(TokenTag::Hmar)
    } else if w == "bhala"@ {
        KindModel::Plain(TokenTag::Bhala)
    } else if w == "hlyin"@ {
        KindModel::Plain(TokenTag::Hlyin)
    } else if w == "mo"@ {
        KindModel::Plain(TokenTag::Mo)
    } else if w == "pat"@ {
        KindModel::Plain(TokenTag::Pat)
    } else if w == "htae"@ {
        KindModel::Plain(TokenTag::Htae)
    } else if w == "laung"@ {
        KindModel::Plain(TokenTag::Laung)
    } else if w == "baung"@ {
        KindModel::Plain(TokenTag::Baung)
    } else if w == "yut"@ {
        KindModel::Plain(TokenTag::Break)
    } else if w == "shar"@ {
        KindModel::Plain(TokenTag::Continue)
    } else if w == "kyoe"@ {
        KindModel::Plain(TokenTag::Kyoe)
    } else if w == "naut_sone"@ {
        KindModel::Plain(TokenTag::NautSone)
    } else if w == "set_sae"@ {
        KindModel::Plain(TokenTag::SetSae)
    } else if w == "loke"@ {
        KindModel::Plain(TokenTag::Loke)
    } else if w == "pyan"@ {
        KindModel::Plain(TokenTag::Pyan)
    } else if w == "pya"@ {
        KindModel::Plain(TokenTag::Pya)
    } else if w == "phat"@ {
        KindModel::Plain(TokenTag::Phat)
    } else if w == "su"@ {
        KindModel::Plain(TokenTag::Su)
    } else if w == "yu"@ {
        KindModel::Plain(TokenTag::Yu)
    } else if w == "twe"@ {
        KindModel::Plain(TokenTag::Twe)
    } else if w == "atote"@ {
        KindModel::Plain(TokenTag::Atote)
    } else if w == "pay"@ {
        KindModel::Plain(TokenTag::Pay)
    } else if w == "pone"@ {
        KindModel::Plain(TokenTag::Pone)
    } else if w == "nee"@ {
        KindModel::Plain(TokenTag::Nee)
    } else if w == "myat"@ {
        KindModel::Plain(TokenTag::Myat)
    } else if w == "amhar"@ {
        KindModel::Plain(TokenTag::Amhar)
    } else {
        KindModel::Identifier(w)
    }
}

/// The kind of the token that starts at `p` (whitespace already skipped)
/// and the number of characters it spans.
pub open spec fn token_at(s: Seq<char>, p: int) -> (KindModel, int) {
    let c = char_at(s, p);
    let c2 = char_at(s, p + 1);
    if c == '+' {
        (KindModel::Plain(TokenTag::Plus), 1)
    } else if c == '-' {
        if c2 == '>' {
            (KindModel::Plain(TokenTag::Arrow), 2)
        } else {
            (KindModel::Plain(TokenTag::Minus), 1)
        }
    } else if c == '*' {
        (KindModel::Plain(TokenTag::Star), 1)
    } else if c == '/' {
        if c2 == '/' {
            let e = scan_until(s, p + 2, '\n');
            (KindModel::Comment(trim_end_spec(s.subrange(p + 2, e))), e - p)
        } else {
            (KindModel::Plain(TokenTag::Slash), 1)
        }
    } else if c == '=' {
        if c2 == '=' {
            (KindModel::Plain(TokenTag::Equals), 2)
        } else {
            (KindModel::Plain(TokenTag::Assign), 1)
        }
    } else if c == '!' {
        if c2 == '=' {
            (KindModel::Plain(TokenTag::NotEquals), 2)
        } else {
            (KindModel::Plain(TokenTag::Illegal), 1)
        }
    } else if c == '>' {
        if c2 == '=' {
            (KindModel::Plain(TokenTag::GreaterEquals), 2)
        } else {
            (KindModel::Plain(TokenTag::GreaterThan), 1)
        }
    } else if c == '<' {
        if c2 == '=' {
            (KindModel::Plain(TokenTag::LessEquals), 2)
        } else {
            (KindModel::Plain(TokenTag::LessThan), 1)
        }
    } else if c == '(' {
        (KindModel::Plain(TokenTag::LParen), 1)
    } else if c == ')' {
        (KindModel::Plain(TokenTag::RParen), 1)
    } else if c == '{' {
        (KindModel::Plain(TokenTag::LBrace), 1)
    } else if c == '}' {
        (KindModel::Plain(TokenTag::RBrace), 1)
    } else if c == '[' {
        (KindModel::Plain(TokenTag::LBracket), 1)
    } else if c == ']' {
        (KindModel::Plain(TokenTag::RBracket), 1)
    } else if c == ',' {
        (KindModel::Plain(TokenTag::Comma), 1)
    } else if c == ';' {
        (KindModel::Plain(TokenTag::Semicolon), 1)
    } else if c == ':' {
        (KindModel::Plain(TokenTag::Colon), 1)
    } else if c == '.' {
        (KindModel::Plain(TokenTag::Dot), 1)
    } else if c == '"' {
        let e = scan_until(s, p + 1, '"');
        let text = s.subrange(p + 1, e);
        if char_at(s, e) == '"' {
            (KindModel::StringLiteral(text), e - p + 1)
        } else {
            (KindModel::StringLiteral(text), e - p)
        }
    } else if c == '\0' {
        (KindModel::Plain(TokenTag::Eof), 0)
    } else if is_number_char(c) {
        let e = digits_end(s, p);
        let value = digits_value(s, p, e);
        if char_at(s, e) == '.' && is_number_char(char_at(s, e + 1)) {
            let f = digits_end(s, e + 1);
            (KindModel::FloatLiteral(value, digit_values(s, e + 1, f)), f - p)
        } else {
            (KindModel::Number(value), e - p)
        }
    } else if is_letter_or_myanmar_spec(c) {
        let e = ident_end(s, p);
        (lookup_ident_spec(s.subrange(p, e)), e - p)
    } else {
        (KindModel::Plain(TokenTag::Illegal), 1)
    }
}

// ----------------------------------------------------------------------
// What the lexer reads: the tokens and the text they stand for

/// The source text of each operator and punctuation token.
pub open spec fn symbol_text(t: TokenTag) -> Seq<char> {
    match t {
        TokenTag::Plus => seq!['+'],
        TokenTag::Minus => seq!['-'],
        TokenTag::Star => seq!['*'],
        TokenTag::Slash => seq!['/'],
        TokenTag::Assign => seq!['='],
        TokenTag::Equals => seq!['=', '='],
        TokenTag::NotEquals => seq!['!', '='],
        TokenTag::GreaterThan => seq!['>'],
        TokenTag::LessThan => seq!['<'],
        TokenTag::GreaterEquals => seq!['>', '='],
        TokenTag::LessEquals => seq!['<', '='],
        TokenTag::Dot => seq!['.'],
        TokenTag::LParen => seq!['('],
        TokenTag::RParen => seq![')'],
        TokenTag::LBrace => seq!['{'],
        TokenTag::RBrace => seq!['}'],
        TokenTag::LBracket => seq!['['],
        TokenTag::RBracket => seq![']'],
        TokenTag::Comma => seq![','],
        TokenTag::Semicolon => seq![';'],
        TokenTag::Colon => seq![':'],
        TokenTag::Arrow => seq!['-', '>'],
        _ => Seq::empty(),
    }
}

/// The word of each keyword, as the language's keyword table lists it.
pub open spec fn keyword_text(t: TokenTag) -> Seq<char> {
    match t {
        TokenTag::Kain => "kain"@,
        TokenTag::Sar => "sar"@,
        TokenTag::Sit => "sit"@,
        TokenTag::DaTha => "da_tha"@,
        TokenTag::Hman => "hman"@,
        TokenTag::Hmar => "hmar"@,
        TokenTag::Bhala => "bhala"@,
        TokenTag::Hlyin => "hlyin"@,
        TokenTag::Mo => "mo"@,
        TokenTag::Pat => "pat"@,
        TokenTag::Htae => "htae"@,
        TokenTag::Laung => "laung"@,
        TokenTag::Baung => "baung"@,
        TokenTag::Break => "yut"@,
        TokenTag::Continue => "shar"@,
        TokenTag::Kyoe => "kyoe"@,
        TokenTag::NautSone => "naut_sone"@,
        TokenTag::SetSae => "set_sae"@,
        TokenTag::Loke => "loke"@,
        TokenTag::Pyan => "pyan"@,
        TokenTag::Pya => "pya"@,
        TokenTag::Phat => "phat"@,
        TokenTag::Su => "su"@,
        TokenTag::Yu => "yu"@,
        TokenTag::Twe => "twe"@,
        TokenTag::Atote => "atote"@,
        TokenTag::Pay => "pay"@,
        TokenTag::Pone => "pone"@,
        TokenTag::Nee => "nee"@,
        TokenTag::Myat => "myat"@,
        TokenTag::Amhar => "amhar"@,
        _ => Seq::empty(),
    }
}

/// An operator or punctuation token stands for exactly the characters it
/// spans: reading `<=` gives `LessEquals` over two characters, `<` alone
/// gives `LessThan` over one, and so on; the longer of two operators that
/// share a first character wins.
pub proof fn law_symbol_tokens(s: Seq<char>, p: int)
    ensures
        (token_at(s, p).0 matches KindModel::Plain(t) && symbol_text(t).len() > 0) ==> {
            let t = token_at(s, p).0->Plain_0;
            &&& token_at(s, p).1 == symbol_text(t).len()
            &&& forall|i: int| 0 <= i < symbol_text(t).len() ==> #[trigger] char_at(s, p + i) == symbol_text(t)[i]
        },
        char_at(s, p) == '<' && char_at(s, p + 1) == '=' ==> token_at(s, p) == (KindModel::Plain(TokenTag::LessEquals), 2int),
        char_at(s, p) == '>' && char_at(s, p + 1) == '=' ==> token_at(s, p) == (KindModel::Plain(TokenTag::GreaterEquals), 2int),
        char_at(s, p) == '=' && char_at(s, p + 1) == '=' ==> token_at(s, p) == (KindModel::Plain(TokenTag::Equals), 2int),
        char_at(s, p) == '!' && char_at(s, p + 1) == '=' ==> token_at(s, p) == (KindModel::Plain(TokenTag::NotEquals), 2int),
        char_at(s, p) == '-' && char_at(s, p + 1) == '>' ==> token_at(s, p) == (KindModel::Plain(TokenTag::Arrow), 2int),
        char_at(s, p) == '<' && char_at(s, p + 1) != '=' ==> token_at(s, p) == (KindModel::Plain(TokenTag::LessThan), 1int),
        char_at(s, p) == '>' && char_at(s, p + 1) != '=' ==> token_at(s, p) == (KindModel::Plain(TokenTag::GreaterThan), 1int),
        char_at(s, p) == '=' && char_at(s, p + 1) != '=' ==> token_at(s, p) == (KindModel::Plain(TokenTag::Assign), 1int),
        char_at(s, p) == '!' && char_at(s, p + 1) != '=' ==> token_at(s, p) == (KindModel::Plain(TokenTag::Illegal), 1int),
        char_at(s, p) == '-' && char_at(s, p + 1) != '>' ==> token_at(s, p) == (KindModel::Plain(TokenTag::Minus), 1int),
        char_at(s, p) == '/' && char_at(s, p + 1) != '/' ==> token_at(s, p) == (KindModel::Plain(TokenTag::Slash), 1int),
        char_at(s, p) == '+' ==> token_at(s, p) == (KindModel::Plain(TokenTag::Plus), 1int),
        char_at(s, p) == '*' ==> token_at(s, p) == (KindModel::Plain(TokenTag::Star), 1int),
        char_at(s, p) == '.' ==> token_at(s, p) == (KindModel::Plain(TokenTag::Dot), 1int),
        char_at(s, p) == '(' ==> token_at(s, p) == (KindModel::Plain(TokenTag::LParen), 1int),
        char_at(s, p) == ')' ==> token_at(s, p) == (KindModel::Plain(TokenTag::RParen), 1int),
        char_at(s, p) == '{' ==> token_at(s, p) == (KindModel::Plain(TokenTag::LBrace), 1int),
        char_at(s, p) == '}' ==> token_at(s, p) == (KindModel::Plain(TokenTag::RBrace), 1int),
        char_at(s, p) == '[' ==> token_at(s, p) == (KindModel::Plain(TokenTag::LBracket), 1int),
        char_at(s, p) == ']' ==> token_at(s, p) == (KindModel::Plain(TokenTag::RBracket), 1int),
        char_at(s, p) == ',' ==> token_at(s, p) == (KindModel::Plain(TokenTag::Comma), 1int),
        char_at(s, p) == ';' ==> token_at(s, p) == (KindModel::Plain(TokenTag::Semicolon), 1int),
        char_at(s, p) == ':' ==> token_at(s, p) == (KindModel::Plain(TokenTag::Colon), 1int),
{
}

/// The text of each infix operator in the syntax tree is the text the lexer
/// read for its token.
pub proof fn law_operator_text_is_source_text(t: TokenTag)
    ensures
        crate::parser::operator_text(t).len() > 0 ==> crate::parser::operator_text(t) == symbol_text(t),
{
    crate::parser::lemma_operator_texts_distinct();
}

/// A word is a keyword exactly when the keyword table lists it, and then it
/// reads as that keyword's token; every other word reads as an identifier
/// holding the word itself.
pub proof fn law_keywords(w: Seq<char>, t: TokenTag)
    ensures
        keyword_text(t).len() > 0 ==> lookup_ident_spec(keyword_text(t)) == KindModel::Plain(t),
        lookup_ident_spec(w) matches KindModel::Plain(k) ==> keyword_text(k) == w,
        lookup_ident_spec(w) is Plain || lookup_ident_spec(w) == KindModel::Identifier(w),
{
    reveal_strlit("kain");
    reveal_strlit("sar");
    reveal_strlit("sit");
    reveal_strlit("da_tha");
    reveal_strlit("hman");
    reveal_strlit("hmar");
    reveal_strlit("bhala");
    reveal_strlit("hlyin");
    reveal_strlit("mo");
    reveal_strlit("pat");
    reveal_strlit("htae");
    reveal_strlit("laung");
    reveal_strlit("baung");
    reveal_strlit("yut");
    reveal_strlit("shar");
    reveal_strlit("kyoe");
    reveal_strlit("naut_sone");
    reveal_strlit("set_sae");
    reveal_strlit("loke");
    reveal_strlit("pyan");
    reveal_strlit("pya");
    reveal_strlit("phat");
    reveal_strlit("su");
    reveal_strlit("yu");
    reveal_strlit("twe");
    reveal_strlit("atote");
    reveal_strlit("pay");
    reveal_strlit("pone");
    reveal_strlit("nee");
    reveal_strlit("myat");
    reveal_strlit("amhar");
    assert(lookup_ident_spec("kain"@) == KindModel::Plain(TokenTag::Kain)) by {

    }
    assert(lookup_ident_spec("sar"@) == KindModel::Plain(TokenTag::Sar)) by {
        assert("sar"@.len() != "kain"@.len());
    }
    assert(lookup_ident_spec("sit"@) == KindModel::Plain(TokenTag::Sit)) by {
        assert("sit"@.len() != "kain"@.len());
        assert("sit"@[1] != "sar"@[1]);
    }
    assert(lookup_ident_spec("da_tha"@) == KindModel::Plain(TokenTag::DaTha)) by {
        assert("da_tha"@.len() != "kain"@.len());
        assert("da_tha"@.len() != "sar"@.len());
        assert("da_tha"@.len() != "sit"@.len());
    }
    assert(lookup_ident_spec("hman"@) == KindModel::Plain(TokenTag::Hman)) by {
        assert("hman"@[0] != "kain"@[0]);
        assert("hman"@.len() != "sar"@.len());
        assert("hman"@.len() != "sit"@.len());
        assert("hman"@.len() != "da_tha"@.len());
    }
    assert(lookup_ident_spec("hmar"@) == KindModel::Plain(TokenTag::Hmar)) by {
        assert("hmar"@[0] != "kain"@[0]);
        assert("hmar"@.len() != "sar"@.len());
        assert("hmar"@.len() != "sit"@.len());
        assert("hmar"@.len() != "da_tha"@.len());
        assert("hmar"@[3] != "hman"@[3]);
    }
    assert(lookup_ident_spec("bhala"@) == KindModel::Plain(TokenTag::Bhala)) by {
        assert("bhala"@.len() != "kain"@.len());
        assert("bhala"@.len() != "sar"@.len());
        assert("bhala"@.len() != "sit"@.len());
        assert("bhala"@.len() != "da_tha"@.len());
        assert("bhala"@.len() != "hman"@.len());
        assert("bhala"@.len() != "hmar"@.len());
    }
    assert(lookup_ident_spec("hlyin"@) == KindModel::Plain(TokenTag::Hlyin)) by {
        assert("hlyin"@.len() != "kain"@.len());
        assert("hlyin"@.len() != "sar"@.len());
        assert("hlyin"@.len() != "sit"@.len());
        assert("hlyin"@.len() != "da_tha"@.len());
        assert("hlyin"@.len() != "hman"@.len());
        assert("hlyin"@.len() != "hmar"@.len());
        assert("hlyin"@[0] != "bhala"@[0]);
    }
    assert(lookup_ident_spec("mo"@) == KindModel::Plain(TokenTag::Mo)) by {
        assert("mo"@.len() != "kain"@.len());
        assert("mo"@.len() != "sar"@.len());
        assert("mo"@.len() != "sit"@.len());
        assert("mo"@.len() != "da_tha"@.len());
        assert("mo"@.len() != "hman"@.len());
        assert("mo"@.len() != "hmar"@.len());
        assert("mo"@.len() != "bhala"@.len());
        assert("mo"@.len() != "hlyin"@.len());
    }
    assert(lookup_ident_spec("pat"@) == KindModel::Plain(TokenTag::Pat)) by {
        assert("pat"@.len() != "kain"@.len());
        assert("pat"@[0] != "sar"@[0]);
        assert("pat"@[0] != "sit"@[0]);
        assert("pat"@.len() != "da_tha"@.len());
        assert("pat"@.len() != "hman"@.len());
        assert("pat"@.len() != "hmar"@.len());
        assert("pat"@.len() != "bhala"@.len());
        assert("pat"@.len() != "hlyin"@.len());
        assert("pat"@.len() != "mo"@.len());
    }
    assert(lookup_ident_spec("htae"@) == KindModel::Plain(TokenTag::Htae)) by {
        assert("htae"@[0] != "kain"@[0]);
        assert("htae"@.len() != "sar"@.len());
        assert("htae"@.len() != "sit"@.len());
        assert("htae"@.len() != "da_tha"@.len());
        assert("htae"@[1] != "hman"@[1]);
        assert("htae"@[1] != "hmar"@[1]);
        assert("htae"@.len() != "bhala"@.len());
        assert("htae"@.len() != "hlyin"@.len());
        assert("htae"@.len() != "mo"@.len());
        assert("htae"@.len() != "pat"@.len());
    }
    assert(lookup_ident_spec("laung"@) == KindModel::Plain(TokenTag::Laung)) by {
        assert("laung"@.len() != "kain"@.len());
        assert("laung"@.len() != "sar"@.len());
        assert("laung"@.len() != "sit"@.len());
        assert("laung"@.len() != "da_tha"@.len());
        assert("laung"@.len() != "hman"@.len());
        assert("laung"@.len() != "hmar"@.len());
        assert("laung"@[0] != "bhala"@[0]);
        assert("laung"@[0] != "hlyin"@[0]);
        assert("laung"@.len() != "mo"@.len());
        assert("laung"@.len() != "pat"@.len());
        assert("laung"@.len() != "htae"@.len());
    }
    assert(lookup_ident_spec("baung"@) == KindModel::Plain(TokenTag::Baung)) by {
        assert("baung"@.len() != "kain"@.len());
        assert("baung"@.len() != "sar"@.len());
        assert("baung"@.len() != "sit"@.len());
        assert("baung"@.len() != "da_tha"@.len());
        assert("baung"@.len() != "hman"@.len());
        assert("baung"@.len() != "hmar"@.len());
        assert("baung"@[1] != "bhala"@[1]);
        assert("baung"@[0] != "hlyin"@[0]);
        assert("baung"@.len() != "mo"@.len());
        assert("baung"@.len() != "pat"@.len());
        assert("baung"@.len() != "htae"@.len());
        assert("baung"@[0] != "laung"@[0]);
    }
    assert(lookup_ident_spec("yut"@) == KindModel::Plain(TokenTag::Break)) by {
        assert("yut"@.len() != "kain"@.len());
        assert("yut"@[0] != "sar"@[0]);
        assert("yut"@[0] != "sit"@[0]);
        assert("yut"@.len() != "da_tha"@.len());
        assert("yut"@.len() != "hman"@.len());
        assert("yut"@.len() != "hmar"@.len());
        assert("yut"@.len() != "bhala"@.len());
        assert("yut"@.len() != "hlyin"@.len());
        assert("yut"@.len() != "mo"@.len());
        assert("yut"@[0] != "pat"@[0]);
        assert("yut"@.len() != "htae"@.len());
        assert("yut"@.len() != "laung"@.len());
        assert("yut"@.len() != "baung"@.len());
    }
    assert(lookup_ident_spec("shar"@) == KindModel::Plain(TokenTag::Continue)) by {
        assert("shar"@[0] != "kain"@[0]);
        assert("shar"@.len() != "sar"@.len());
        assert("shar"@.len() != "sit"@.len());
        assert("shar"@.len() != "da_tha"@.len());
        assert("shar"@[0] != "hman"@[0]);
        assert("shar"@[0] != "hmar"@[0]);
        assert("shar"@.len() != "bhala"@.len());
        assert("shar"@.len() != "hlyin"@.len());
        assert("shar"@.len() != "mo"@.len());
        assert("shar"@.len() != "pat"@.len());
        assert("shar"@[0] != "htae"@[0]);
        assert("shar"@.len() != "laung"@.len());
        assert("shar"@.len() != "baung"@.len());
        assert("shar"@.len() != "yut"@.len());
    }
    assert(lookup_ident_spec("kyoe"@) == KindModel::Plain(TokenTag::Kyoe)) by {
        assert("kyoe"@[1] != "kain"@[1]);
        assert("kyoe"@.len() != "sar"@.len());
        assert("kyoe"@.len() != "sit"@.len());
        assert("kyoe"@.len() != "da_tha"@.len());
        assert("kyoe"@[0] != "hman"@[0]);
        assert("kyoe"@[0] != "hmar"@[0]);
        assert("kyoe"@.len() != "bhala"@.len());
        assert("kyoe"@.len() != "hlyin"@.len());
        assert("kyoe"@.len() != "mo"@.len());
        assert("kyoe"@.len() != "pat"@.len());
        assert("kyoe"@[0] != "htae"@[0]);
        assert("kyoe"@.len() != "laung"@.len());
        assert("kyoe"@.len() != "baung"@.len());
        assert("kyoe"@.len() != "yut"@.len());
        assert("kyoe"@[0] != "shar"@[0]);
    }
    assert(lookup_ident_spec("naut_sone"@) == KindModel::Plain(TokenTag::NautSone)) by {
        assert("naut_sone"@.len() != "kain"@.len());
        assert("naut_sone"@.len() != "sar"@.len());
        assert("naut_sone"@.len() != "sit"@.len());
        assert("naut_sone"@.len() != "da_tha"@.len());
        assert("naut_sone"@.len() != "hman"@.len());
        assert("naut_sone"@.len() != "hmar"@.len());
        assert("naut_sone"@.len() != "bhala"@.len());
        assert("naut_sone"@.len() != "hlyin"@.len());
        assert("naut_sone"@.len() != "mo"@.len());
        assert("naut_sone"@.len() != "pat"@.len());
        assert("naut_sone"@.len() != "htae"@.len());
        assert("naut_sone"@.len() != "laung"@.len());
        assert("naut_sone"@.len() != "baung"@.len());
        assert("naut_sone"@.len() != "yut"@.len());
        assert("naut_sone"@.len() != "shar"@.len());
        assert("naut_sone"@.len() != "kyoe"@.len());
    }
    assert(lookup_ident_spec("set_sae"@) == KindModel::Plain(TokenTag::SetSae)) by {
        assert("set_sae"@.len() != "kain"@.len());
        assert("set_sae"@.len() != "sar"@.len());
        assert("set_sae"@.len() != "sit"@.len());
        assert("set_sae"@.len() != "da_tha"@.len());
        assert("set_sae"@.len() != "hman"@.len());
        assert("set_sae"@.len() != "hmar"@.len());
        assert("set_sae"@.len() != "bhala"@.len());
        assert("set_sae"@.len() != "hlyin"@.len());
        assert("set_sae"@.len() != "mo"@.len());
        assert("set_sae"@.len() != "pat"@.len());
        assert("set_sae"@.len() != "htae"@.len());
        assert("set_sae"@.len() != "laung"@.len());
        assert("set_sae"@.len() != "baung"@.len());
        assert("set_sae"@.len() != "yut"@.len());
        assert("set_sae"@.len() != "shar"@.len());
        assert("set_sae"@.len() != "kyoe"@.len());
        assert("set_sae"@.len() != "naut_sone"@.len());
    }
    assert(lookup_ident_spec("loke"@) == KindModel::Plain(TokenTag::Loke)) by {
        assert("loke"@[0] != "kain"@[0]);
        assert("loke"@.len() != "sar"@.len());
        assert("loke"@.len() != "sit"@.len());
        assert("loke"@.len() != "da_tha"@.len());
        assert("loke"@[0] != "hman"@[0]);
        assert("loke"@[0] != "hmar"@[0]);
        assert("loke"@.len() != "bhala"@.len());
        assert("loke"@.len() != "hlyin"@.len());
        assert("loke"@.len() != "mo"@.len());
        assert("loke"@.len() != "pat"@.len());
        assert("loke"@[0] != "htae"@[0]);
        assert("loke"@.len() != "laung"@.len());
        assert("loke"@.len() != "baung"@.len());
        assert("loke"@.len() != "yut"@.len());
        assert("loke"@[0] != "shar"@[0]);
        assert("loke"@[0] != "kyoe"@[0]);
        assert("loke"@.len() != "naut_sone"@.len());
        assert("loke"@.len() != "set_sae"@.len());
    }
    assert(lookup_ident_spec("pyan"@) == KindModel::Plain(TokenTag::Pyan)) by {
        assert("pyan"@[0] != "kain"@[0]);
        assert("pyan"@.len() != "sar"@.len());
        assert("pyan"@.len() != "sit"@.len());
        assert("pyan"@.len() != "da_tha"@.len());
        assert("pyan"@[0] != "hman"@[0]);
        assert("pyan"@[0] != "hmar"@[0]);
        assert("pyan"@.len() != "bhala"@.len());
        assert("pyan"@.len() != "hlyin"@.len());
        assert("pyan"@.len() != "mo"@.len());
        assert("pyan"@.len() != "pat"@.len());
        assert("pyan"@[0] != "htae"@[0]);
        assert("pyan"@.len() != "laung"@.len());
        assert("pyan"@.len() != "baung"@.len());
        assert("pyan"@.len() != "yut"@.len());
        assert("pyan"@[0] != "shar"@[0]);
        assert("pyan"@[0] != "kyoe"@[0]);
        assert("pyan"@.len() != "naut_sone"@.len());
        assert("pyan"@.len() != "set_sae"@.len());
        assert("pyan"@[0] != "loke"@[0]);
    }
    assert(lookup_ident_spec("pya"@) == KindModel::Plain(TokenTag::Pya)) by {
        assert("pya"@.len() != "kain"@.len());
        assert("pya"@[0] != "sar"@[0]);
        assert("pya"@[0] != "sit"@[0]);
        assert("pya"@.len() != "da_tha"@.len());
        assert("pya"@.len() != "hman"@.len());
        assert("pya"@.len() != "hmar"@.len());
        assert("pya"@.len() != "bhala"@.len());
        assert("pya"@.len() != "hlyin"@.len());
        assert("pya"@.len() != "mo"@.len());
        assert("pya"@[1] != "pat"@[1]);
        assert("pya"@.len() != "htae"@.len());
        assert("pya"@.len() != "laung"@.len());
        assert("pya"@.len() != "baung"@.len());
        assert("pya"@[0] != "yut"@[0]);
        assert("pya"@.len() != "shar"@.len());
        assert("pya"@.len() != "kyoe"@.len());
        assert("pya"@.len() != "naut_sone"@.len());
        assert("pya"@.len() != "set_sae"@.len());
        assert("pya"@.len() != "loke"@.len());
        assert("pya"@.len() != "pyan"@.len());
    }
    assert(lookup_ident_spec("phat"@) == KindModel::Plain(TokenTag::Phat)) by {
        assert("phat"@[0] != "kain"@[0]);
        assert("phat"@.len() != "sar"@.len());
        assert("phat"@.len() != "sit"@.len());
        assert("phat"@.len() != "da_tha"@.len());
        assert("phat"@[0] != "hman"@[0]);
        assert("phat"@[0] != "hmar"@[0]);
        assert("phat"@.len() != "bhala"@.len());
        assert("phat"@.len() != "hlyin"@.len());
        assert("phat"@.len() != "mo"@.len());
        assert("phat"@.len() != "pat"@.len());
        assert("phat"@[0] != "htae"@[0]);
        assert("phat"@.len() != "laung"@.len());
        assert("phat"@.len() != "baung"@.len());
        assert("phat"@.len() != "yut"@.len());
        assert("phat"@[0] != "shar"@[0]);
        assert("phat"@[0] != "kyoe"@[0]);
        assert("phat"@.len() != "naut_sone"@.len());
        assert("phat"@.len() != "set_sae"@.len());
        assert("phat"@[0] != "loke"@[0]);
        assert("phat"@[1] != "pyan"@[1]);
        assert("phat"@.len() != "pya"@.len());
    }
    assert(lookup_ident_spec("su"@) == KindModel::Plain(TokenTag::Su)) by {
        assert("su"@.len() != "kain"@.len());
        assert("su"@.len() != "sar"@.len());
        assert("su"@.len() != "sit"@.len());
        assert("su"@.len() != "da_tha"@.len());
        assert("su"@.len() != "hman"@.len());
        assert("su"@.len() != "hmar"@.len());
        assert("su"@.len() != "bhala"@.len());
        assert("su"@.len() != "hlyin"@.len());
        assert("su"@[0] != "mo"@[0]);
        assert("su"@.len() != "pat"@.len());
        assert("su"@.len() != "htae"@.len());
        assert("su"@.len() != "laung"@.len());
        assert("su"@.len() != "baung"@.len());
        assert("su"@.len() != "yut"@.len());
        assert("su"@.len() != "shar"@.len());
        assert("su"@.len() != "kyoe"@.len());
        assert("su"@.len() != "naut_sone"@.len());
        assert("su"@.len() != "set_sae"@.len());
        assert("su"@.len() != "loke"@.len());
        assert("su"@.len() != "pyan"@.len());
        assert("su"@.len() != "pya"@.len());
        assert("su"@.len() != "phat"@.len());
    }
    assert(lookup_ident_spec("yu"@) == KindModel::Plain(TokenTag::Yu)) by {
        assert("yu"@.len() != "kain"@.len());
        assert("yu"@.len() != "sar"@.len());
        assert("yu"@.len() != "sit"@.len());
        assert("yu"@.len() != "da_tha"@.len());
        assert("yu"@.len() != "hman"@.len());
        assert("yu"@.len() != "hmar"@.len());
        assert("yu"@.len() != "bhala"@.len());
        assert("yu"@.len() != "hlyin"@.len());
        assert("yu"@[0] != "mo"@[0]);
        assert("yu"@.len() != "pat"@.len());
        assert("yu"@.len() != "htae"@.len());
        assert("yu"@.len() != "laung"@.len());
        assert("yu"@.len() != "baung"@.len());
        assert("yu"@.len() != "yut"@.len());
        assert("yu"@.len() != "shar"@.len());
        assert("yu"@.len() != "kyoe"@.len());
        assert("yu"@.len() != "naut_sone"@.len());
        assert("yu"@.len() != "set_sae"@.len());
        assert("yu"@.len() != "loke"@.len());
        assert("yu"@.len() != "pyan"@.len());
        assert("yu"@.len() != "pya"@.len());
        assert("yu"@.len() != "phat"@.len());
        assert("yu"@[0] != "su"@[0]);
    }
    assert(lookup_ident_spec("twe"@) == KindModel::Plain(TokenTag::Twe)) by {
        assert("twe"@.len() != "kain"@.len());
        assert("twe"@[0] != "sar"@[0]);
        assert("twe"@[0] != "sit"@[0]);
        assert("twe"@.len() != "da_tha"@.len());
        assert("twe"@.len() != "hman"@.len());
        assert("twe"@.len() != "hmar"@.len());
        assert("twe"@.len() != "bhala"@.len());
        assert("twe"@.len() != "hlyin"@.len());
        assert("twe"@.len() != "mo"@.len());
        assert("twe"@[0] != "pat"@[0]);
        assert("twe"@.len() != "htae"@.len());
        assert("twe"@.len() != "laung"@.len());
        assert("twe"@.len() != "baung"@.len());
        assert("twe"@[0] != "yut"@[0]);
        assert("twe"@.len() != "shar"@.len());
        assert("twe"@.len() != "kyoe"@.len());
        assert("twe"@.len() != "naut_sone"@.len());
        assert("twe"@.len() != "set_sae"@.len());
        assert("twe"@.len() != "loke"@.len());
        assert("twe"@.len() != "pyan"@.len());
        assert("twe"@[0] != "pya"@[0]);
        assert("twe"@.len() != "phat"@.len());
        assert("twe"@.len() != "su"@.len());
        assert("twe"@.len() != "yu"@.len());
    }
    assert(lookup_ident_spec("atote"@) == KindModel::Plain(TokenTag::Atote)) by {
        assert("atote"@.len() != "kain"@.len());
        assert("atote"@.len() != "sar"@.len());
        assert("atote"@.len() != "sit"@.len());
        assert("atote"@.len() != "da_tha"@.len());
        assert("atote"@.len() != "hman"@.len());
        assert("atote"@.len() != "hmar"@.len());
        assert("atote"@[0] != "bhala"@[0]);
        assert("atote"@[0] != "hlyin"@[0]);
        assert("atote"@.len() != "mo"@.len());
        assert("atote"@.len() != "pat"@.len());
        assert("atote"@.len() != "htae"@.len());
        assert("atote"@[0] != "laung"@[0]);
        assert("atote"@[0] != "baung"@[0]);
        assert("atote"@.len() != "yut"@.len());
        assert("atote"@.len() != "shar"@.len());
        assert("atote"@.len() != "kyoe"@.len());
        assert("atote"@.len() != "naut_sone"@.len());
        assert("atote"@.len() != "set_sae"@.len());
        assert("atote"@.len() != "loke"@.len());
        assert("atote"@.len() != "pyan"@.len());
        assert("atote"@.len() != "pya"@.len());
        assert("atote"@.len() != "phat"@.len());
        assert("atote"@.len() != "su"@.len());
        assert("atote"@.len() != "yu"@.len());
        assert("atote"@.len() != "twe"@.len());
    }
    assert(lookup_ident_spec("pay"@) == KindModel::Plain(TokenTag::Pay)) by {
        assert("pay"@.len() != "kain"@.len());
        assert("pay"@[0] != "sar"@[0]);
        assert("pay"@[0] != "sit"@[0]);
        assert("pay"@.len() != "da_tha"@.len());
        assert("pay"@.len() != "hman"@.len());
        assert("pay"@.len() != "hmar"@.len());
        assert("pay"@.len() != "bhala"@.len());
        assert("pay"@.len() != "hlyin"@.len());
        assert("pay"@.len() != "mo"@.len());
        assert("pay"@[2] != "pat"@[2]);
        assert("pay"@.len() != "htae"@.len());
        assert("pay"@.len() != "laung"@.len());
        assert("pay"@.len() != "baung"@.len());
        assert("pay"@[0] != "yut"@[0]);
        assert("pay"@.len() != "shar"@.len());
        assert("pay"@.len() != "kyoe"@.len());
        assert("pay"@.len() != "naut_sone"@.len());
        assert("pay"@.len() != "set_sae"@.len());
        assert("pay"@.len() != "loke"@.len());
        assert("pay"@.len() != "pyan"@.len());
        assert("pay"@[1] != "pya"@[1]);
        assert("pay"@.len() != "phat"@.len());
        assert("pay"@.len() != "su"@.len());
        assert("pay"@.len() != "yu"@.len());
        assert("pay"@[0] != "twe"@[0]);
        assert("pay"@.len() != "atote"@.len());
    }
    assert(lookup_ident_spec("pone"@) == KindModel::Plain(TokenTag::Pone)) by {
        assert("pone"@[0] != "kain"@[0]);
        assert("pone"@.len() != "sar"@.len());
        assert("pone"@.len() != "sit"@.len());
        assert("pone"@.len() != "da_tha"@.len());
        assert("pone"@[0] != "hman"@[0]);
        assert("pone"@[0] != "hmar"@[0]);
        assert("pone"@.len() != "bhala"@.len());
        assert("pone"@.len() != "hlyin"@.len());
        assert("pone"@.len() != "mo"@.len());
        assert("pone"@.len() != "pat"@.len());
        assert("pone"@[0] != "htae"@[0]);
        assert("pone"@.len() != "laung"@.len());
        assert("pone"@.len() != "baung"@.len());
        assert("pone"@.len() != "yut"@.len());
        assert("pone"@[0] != "shar"@[0]);
        assert("pone"@[0] != "kyoe"@[0]);
        assert("pone"@.len() != "naut_sone"@.len());
        assert("pone"@.len() != "set_sae"@.len());
        assert("pone"@[0] != "loke"@[0]);
        assert("pone"@[1] != "pyan"@[1]);
        assert("pone"@.len() != "pya"@.len());
        assert("pone"@[1] != "phat"@[1]);
        assert("pone"@.len() != "su"@.len());
        assert("pone"@.len() != "yu"@.len());
        assert("pone"@.len() != "twe"@.len());
        assert("pone"@.len() != "atote"@.len());
        assert("pone"@.len() != "pay"@.len());
    }
    assert(lookup_ident_spec("nee"@) == KindModel::Plain(TokenTag::Nee)) by {
        assert("nee"@.len() != "kain"@.len());
        assert("nee"@[0] != "sar"@[0]);
        assert("nee"@[0] != "sit"@[0]);
        assert("nee"@.len() != "da_tha"@.len());
        assert("nee"@.len() != "hman"@.len());
        assert("nee"@.len() != "hmar"@.len());
        assert("nee"@.len() != "bhala"@.len());
        assert("nee"@.len() != "hlyin"@.len());
        assert("nee"@.len() != "mo"@.len());
        assert("nee"@[0] != "pat"@[0]);
        assert("nee"@.len() != "htae"@.len());
        assert("nee"@.len() != "laung"@.len());
        assert("nee"@.len() != "baung"@.len());
        assert("nee"@[0] != "yut"@[0]);
        assert("nee"@.len() != "shar"@.len());
        assert("nee"@.len() != "kyoe"@.len());
        assert("nee"@.len() != "naut_sone"@.len());
        assert("nee"@.len() != "set_sae"@.len());
        assert("nee"@.len() != "loke"@.len());
        assert("nee"@.len() != "pyan"@.len());
        assert("nee"@[0] != "pya"@[0]);
        assert("nee"@.len() != "phat"@.len());
        assert("nee"@.len() != "su"@.len());
        assert("nee"@.len() != "yu"@.len());
        assert("nee"@[0] != "twe"@[0]);
        assert("nee"@.len() != "atote"@.len());
        assert("nee"@[0] != "pay"@[0]);
        assert("nee"@.len() != "pone"@.len());
    }
    assert(lookup_ident_spec("myat"@) == KindModel::Plain(TokenTag::Myat)) by {
        assert("myat"@[0] != "kain"@[0]);
        assert("myat"@.len() != "sar"@.len());
        assert("myat"@.len() != "sit"@.len());
        assert("myat"@.len() != "da_tha"@.len());
        assert("myat"@[0] != "hman"@[0]);
        assert("myat"@[0] != "hmar"@[0]);
        assert("myat"@.len() != "bhala"@.len());
        assert("myat"@.len() != "hlyin"@.len());
        assert("myat"@.len() != "mo"@.len());
        assert("myat"@.len() != "pat"@.len());
        assert("myat"@[0] != "htae"@[0]);
        assert("myat"@.len() != "laung"@.len());
        assert("myat"@.len() != "baung"@.len());
        assert("myat"@.len() != "yut"@.len());
        assert("myat"@[0] != "shar"@[0]);
        assert("myat"@[0] != "kyoe"@[0]);
        assert("myat"@.len() != "naut_sone"@.len());
        assert("myat"@.len() != "set_sae"@.len());
        assert("myat"@[0] != "loke"@[0]);
        assert("myat"@[0] != "pyan"@[0]);
        assert("myat"@.len() != "pya"@.len());
        assert("myat"@[0] != "phat"@[0]);
        assert("myat"@.len() != "su"@.len());
        assert("myat"@.len() != "yu"@.len());
        assert("myat"@.len() != "twe"@.len());
        assert("myat"@.len() != "atote"@.len());
        assert("myat"@.len() != "pay"@.len());
        assert("myat"@[0] != "pone"@[0]);
        assert("myat"@.len() != "nee"@.len());
    }
    assert(lookup_ident_spec("amhar"@) == KindModel::Plain(TokenTag::Amhar)) by {
        assert("amhar"@.len() != "kain"@.len());
        assert("amhar"@.len() != "sar"@.len());
        assert("amhar"@.len() != "sit"@.len());
        assert("amhar"@.len() != "da_tha"@.len());
        assert("amhar"@.len() != "hman"@.len());
        assert("amhar"@.len() != "hmar"@.len());
        assert("amhar"@[0] != "bhala"@[0]);
        assert("amhar"@[0] != "hlyin"@[0]);
        assert("amhar"@.len() != "mo"@.len());
        assert("amhar"@.len() != "pat"@.len());
        assert("amhar"@.len() != "htae"@.len());
        assert("amhar"@[0] != "laung"@[0]);
        assert("amhar"@[0] != "baung"@[0]);
        assert("amhar"@.len() != "yut"@.len());
        assert("amhar"@.len() != "shar"@.len());
        assert("amhar"@.len() != "kyoe"@.len());
        assert("amhar"@.len() != "naut_sone"@.len());
        assert("amhar"@.len() != "set_sae"@.len());
        assert("amhar"@.len() != "loke"@.len());
        assert("amhar"@.len() != "pyan"@.len());
        assert("amhar"@.len() != "pya"@.len());
        assert("amhar"@.len() != "phat"@.len());
        assert("amhar"@.len() != "su"@.len());
        assert("amhar"@.len() != "yu"@.len());
        assert("amhar"@.len() != "twe"@.len());
        assert("amhar"@[1] != "atote"@[1]);
        assert("amhar"@.len() != "pay"@.len());
        assert("amhar"@.len() != "pone"@.len());
        assert("amhar"@.len() != "nee"@.len());
        assert("amhar"@.len() != "myat"@.len());
    }
}

/// An ASCII digit and the Myanmar digit of the same rank have the same value.
pub proof fn law_digit_values(k: int)
    requires
        0 <= k < 10,
    ensures
        digit_value(('0' as int + k) as char) == k,
        digit_value((0x1040 + k) as char) == k,
        is_number_char(('0' as int + k) as char),
        is_number_char((0x1040 + k) as char),
{
}

/// Numbers are read in base ten: a lone digit is its own value, and two
/// digits are ten times the first plus the second (ASCII and Myanmar
/// digits alike), when no further digit or fraction follows.
pub proof fn law_decimal_numbers(s: Seq<char>, p: int)
    requires
        0 <= p,
    ensures
        is_number_char(char_at(s, p)) && !is_number_char(char_at(s, p + 1)) && char_at(s, p + 1) != '.'
            ==> token_at(s, p) == (KindModel::Number(digit_value(char_at(s, p)) as i64), 1int),
        is_number_char(char_at(s, p)) && is_number_char(char_at(s, p + 1)) && !is_number_char(char_at(s, p + 2))
            && char_at(s, p + 2) != '.' ==> token_at(s, p) == (KindModel::Number(
            (10 * digit_value(char_at(s, p)) + digit_value(char_at(s, p + 1))) as i64,
        ), 2int),
{
    if is_number_char(char_at(s, p)) {
        assert(0 <= p < s.len());
        assert(char_at(s, p) == s[p]);
        assert(0 <= digit_value(s[p]) < 10);
        assert(digits_value(s, p, p) == 0);
        assert(digits_value(s, p, p + 1) == digit_value(s[p]) as i64);
        if is_number_char(char_at(s, p + 1)) {
            assert(p + 1 < s.len());
            assert(char_at(s, p + 1) == s[p + 1]);
            assert(0 <= digit_value(s[p + 1]) < 10);
            if !is_number_char(char_at(s, p + 2)) {
                assert(digits_end(s, p + 2) == p + 2);
                assert(digits_end(s, p + 1) == p + 2);
                assert(digits_end(s, p) == p + 2);
                assert(digits_value(s, p, p + 2) == (10 * digit_value(s[p]) + digit_value(s[p + 1])) as i64);
            }
        } else {
            assert(digits_end(s, p + 1) == p + 1);
            assert(digits_end(s, p) == p + 1);
        }
    }
}

/// A word, string or number token holds the text it spans: an identifier
/// holds the word itself (or is the keyword it spells), a string literal
/// holds the characters between its quotes.
pub proof fn law_token_text(s: Seq<char>, p: int)
    requires
        0 <= p < s.len(),
    ensures
        is_letter_or_myanmar_spec(s[p]) && s[p] != '\0' && !is_number_char(s[p]) && !(s[p] == '/' || s[p]
            == '"' || s[p] == '+' || s[p] == '-' || s[p] == '*' || s[p] == '=' || s[p] == '!' || s[p] == '>'
            || s[p] == '<' || s[p] == '(' || s[p] == ')' || s[p] == '{' || s[p] == '}' || s[p] == '['
            || s[p] == ']' || s[p] == ',' || s[p] == ';' || s[p] == ':' || s[p] == '.') ==> {
            &&& token_at(s, p).1 >= 1
            &&& p + token_at(s, p).1 <= s.len()
            &&& token_at(s, p).0 == lookup_ident_spec(s.subrange(p, p + token_at(s, p).1))
            &&& forall|i: int| p <= i < p + token_at(s, p).1 ==> is_letter_or_myanmar_spec(#[trigger] s[i])
        },
        s[p] == '"' ==> (token_at(s, p).0 matches KindModel::StringLiteral(text) && {
            &&& p + 1 + text.len() <= s.len()
            &&& text == s.subrange(p + 1, p + 1 + text.len())
            &&& forall|i: int| 0 <= i < text.len() ==> #[trigger] text[i] != '"'
        }),
{
    if s[p] == '"' {
        lemma_scan_until_bounds(s, p + 1, '"');
        assert forall|i: int| 0 <= i < scan_until(s, p + 1, '"') - (p + 1) implies #[trigger] s.subrange(
            p + 1,
            scan_until(s, p + 1, '"'),
        )[i] != '"' by {
            lemma_scan_until_no_stop(s, p + 1, '"', p + 1 + i);
        }
    }
    if is_letter_or_myanmar_spec(s[p]) {
        lemma_ident_end_word(s, p);
        lemma_ident_end_word(s, p + 1);
        assert(char_at(s, p) == s[p]);
    }
}

proof fn lemma_scan_until_no_stop(s: Seq<char>, i: int, stop: char, k: int)
    requires
        0 <= i <= k < scan_until(s, i, stop),
    ensures
        0 <= k < s.len(),
        s[k] != stop,
    decreases s.len() - i,
{
    if k > i {
        lemma_scan_until_no_stop(s, i + 1, stop, k);
    }
}

proof fn lemma_ident_end_word(s: Seq<char>, i: int)
    requires
        0 <= i,
    ensures
        i <= ident_end(s, i),
        i <= s.len() ==> ident_end(s, i) <= s.len(),
        forall|k: int| i <= k < ident_end(s, i) ==> 0 <= k < s.len() && is_letter_or_myanmar_spec(#[trigger] s[k]),
    decreases s.len() - i,
{
    if 0 <= i < s.len() && is_letter_or_myanmar_spec(s[i]) {
        lemma_ident_end_word(s, i + 1);
    }
}

/// The next token read from state `st`.
pub open spec fn lex_token(s: Seq<char>, st: LexState) -> Lexed {
    let t = skip_ws(s, st);
    let (kind, n) = token_at(s, t.pos);
    Lexed { kind, line: t.line, col: t.col, next: LexState { pos: t.pos + n, line: t.line, col: t.col + n } }
}

/// Whitespace skipping stops at a character that is not whitespace (or at
/// the end of the input).
proof fn lemma_skip_ws_stops(s: Seq<char>, st: LexState)
    ensures
        !(0 <= skip_ws(s, st).pos < s.len() && is_whitespace_spec(s[skip_ws(s, st).pos])),
    decreases s.len() - st.pos,
{
    if 0 <= st.pos < s.len() && is_whitespace_spec(s[st.pos]) {
        if s[st.pos] == '\n' {
            lemma_skip_ws_stops(s, LexState { pos: st.pos + 1, line: st.line + 1, col: 1 });
        } else {
            lemma_skip_ws_stops(s, LexState { pos: st.pos + 1, line: st.line, col: st.col + 1 });
        }
    }
}

/// The number of line breaks in a text.
pub open spec fn newline_count(x: Seq<char>) -> nat
    decreases x.len(),
{
    if x.len() == 0 {
        0
    } else {
        (if x[0] == '\n' {
            1nat
        } else {
            0nat
        }) + newline_count(x.drop_first())
    }
}

/// Skipping whitespace moves down one line per line break skipped; when it
/// skips none, the column moves on by the characters skipped.
proof fn lemma_skip_ws_tracks(s: Seq<char>, st: LexState)
    requires
        0 <= st.pos <= s.len(),
    ensures
        st.pos <= skip_ws(s, st).pos <= s.len(),
        skip_ws(s, st).line == st.line + newline_count(s.subrange(st.pos, skip_ws(s, st).pos)),
        newline_count(s.subrange(st.pos, skip_ws(s, st).pos)) == 0 ==> skip_ws(s, st).col == st.col + (
        skip_ws(s, st).pos - st.pos),
    decreases s.len() - st.pos,
{
    let t = skip_ws(s, st);
    if 0 <= st.pos < s.len() && is_whitespace_spec(s[st.pos]) {
        let nx = if s[st.pos] == '\n' {
            LexState { pos: st.pos + 1, line: st.line + 1, col: 1 }
        } else {
            LexState { pos: st.pos + 1, line: st.line, col: st.col + 1 }
        };
        lemma_skip_ws_tracks(s, nx);
        assert(s.subrange(st.pos, t.pos).drop_first() =~= s.subrange(st.pos + 1, t.pos));
    } else {
        assert(s.subrange(st.pos, t.pos) =~= Seq::<char>::empty());
    }
}

/// How the lexer keeps its place: a token starts on the lexer's line plus
/// the line breaks skipped before it, and when none is skipped, at its
/// column plus the characters skipped; the lexer then stays on that line,
/// its column and position both moved on by the token's width.
pub proof fn law_line_column(s: Seq<char>, st: LexState)
    requires
        0 <= st.pos <= s.len(),
    ensures
        lex_token(s, st).line == st.line + newline_count(s.subrange(st.pos, skip_ws(s, st).pos)),
        newline_count(s.subrange(st.pos, skip_ws(s, st).pos)) == 0 ==> lex_token(s, st).col == st.col + (
        skip_ws(s, st).pos - st.pos),
        lex_token(s, st).next.line == lex_token(s, st).line,
        lex_token(s, st).next.col - lex_token(s, st).col == lex_token(s, st).next.pos - skip_ws(s, st).pos,
{
    lemma_skip_ws_tracks(s, st);
}

/// The number of line breaks before position `p`.
pub open spec fn newlines_before(s: Seq<char>, p: int) -> nat
    decreases p,
{
    if p <= 0 {
        0
    } else {
        newlines_before(s, p - 1) + (if char_at(s, p - 1) == '\n' {
            1nat
        } else {
            0nat
        })
    }
}

/// The position of the last line break before position `p`, or -1.
pub open spec fn last_newline_before(s: Seq<char>, p: int) -> int
    decreases p,
{
    if p <= 0 {
        -1
    } else if char_at(s, p - 1) == '\n' {
        p - 1
    } else {
        last_newline_before(s, p - 1)
    }
}

/// The 1-based line and column of position `p`.
pub open spec fn place_of(s: Seq<char>, p: int) -> (int, int) {
    ((1 + newlines_before(s, p)) as int, p - last_newline_before(s, p))
}

/// The lexer's line and column are those of its position.
pub open spec fn keeps_place(s: Seq<char>, st: LexState) -> bool {
    (st.line, st.col) == place_of(s, st.pos)
}

proof fn lemma_digits_end_ge(s: Seq<char>, i: int)
    ensures
        digits_end(s, i) >= i,
    decreases s.len() - i,
{
    if 0 <= i < s.len() && is_number_char(s[i]) {
        lemma_digits_end_ge(s, i + 1);
    }
}

proof fn lemma_ident_end_ge(s: Seq<char>, i: int)
    ensures
        ident_end(s, i) >= i,
    decreases s.len() - i,
{
    if 0 <= i < s.len() && is_letter_or_myanmar_spec(s[i]) {
        lemma_ident_end_ge(s, i + 1);
    }
}

/// A token never moves the lexer backwards.
proof fn lemma_token_width(s: Seq<char>, p: int)
    ensures
        token_at(s, p).1 >= 0,
{
    let c = char_at(s, p);
    if c == '/' && char_at(s, p + 1) == '/' {
        lemma_scan_until_bounds(s, p + 2, '\n');
    } else if c == '"' {
        lemma_scan_until_bounds(s, p + 1, '"');
    } else if is_number_char(c) {
        lemma_digits_end_ge(s, p);
        let e = digits_end(s, p);
        if char_at(s, e) == '.' && is_number_char(char_at(s, e + 1)) {
            lemma_digits_end_ge(s, e + 1);
        }
    } else if is_letter_or_myanmar_spec(c) {
        lemma_ident_end_ge(s, p);
    }
}

/// Over a stretch without line breaks the line stays and the column grows
/// with the position.
proof fn lemma_place_over(s: Seq<char>, a: int, b: int)
    requires
        a <= b,
        forall|i: int| a <= i < b ==> char_at(s, i) != '\n',
    ensures
        newlines_before(s, b) == newlines_before(s, a),
        last_newline_before(s, b) == last_newline_before(s, a) || b <= 0,
    decreases b - a,
{
    if a < b {
        lemma_place_over(s, a, b - 1);
        assert(char_at(s, b - 1) != '\n');
        if b - 1 <= 0 {
            assert(last_newline_before(s, a) == -1);
            assert(last_newline_before(s, b - 1) == -1);
        }
    }
}

/// Skipping whitespace keeps the lexer's line and column those of its
/// position.
proof fn lemma_skip_ws_place(s: Seq<char>, st: LexState)
    requires
        keeps_place(s, st),
    ensures
        keeps_place(s, skip_ws(s, st)),
    decreases s.len() - st.pos,
{
    if 0 <= st.pos < s.len() && is_whitespace_spec(s[st.pos]) {
        assert(char_at(s, st.pos) == s[st.pos]);
        if s[st.pos] == '\n' {
            lemma_skip_ws_place(s, LexState { pos: st.pos + 1, line: st.line + 1, col: 1 });
        } else {
            lemma_skip_ws_place(s, LexState { pos: st.pos + 1, line: st.line, col: st.col + 1 });
        }
    }
}

/// Where tokens start: reading from a fresh lexer, as long as no token read
/// so far spans a line break (only a string literal can), every token
/// carries the 1-based line and column of its first character.
pub proof fn law_token_places(s: Seq<char>, n: nat)
    requires
        forall|k: nat, i: int|
            #![trigger state_after(s, k), char_at(s, i)]
            k < n && skip_ws(s, state_after(s, k)).pos <= i < state_after(s, k + 1).pos ==> char_at(s, i)
                != '\n',
    ensures
        keeps_place(s, state_after(s, n)),
        (nth_token(s, n).line, nth_token(s, n).col) == place_of(s, skip_ws(s, state_after(s, n)).pos),
    decreases n,
{
    if n > 0 {
        let m = (n - 1) as nat;
        law_token_places(s, m);
        let st = state_after(s, m);
        let t = skip_ws(s, st);
        lemma_skip_ws_place(s, st);
        lemma_token_width(s, t.pos);
        let w = token_at(s, t.pos).1;
        assert(state_after(s, m + 1) == lex_token(s, st).next);
        assert forall|i: int| t.pos <= i < t.pos + w implies char_at(s, i) != '\n' by {
            assert(state_after(s, m) == st);
        }
        lemma_place_over(s, t.pos, t.pos + w);
        assert(state_after(s, n) == lex_token(s, st).next);
    }
    lemma_skip_ws_place(s, state_after(s, n));
}

/// Once the lexer reads the end of input, every further read gives the end
/// of input again, at the same line and column, and leaves the state as it
/// is.
pub proof fn lemma_eof_is_sticky(s: Seq<char>, st: LexState)
    requires
        lex_token(s, st).kind == KindModel::Plain(TokenTag::Eof),
    ensures
        lex_token(s, lex_token(s, st).next) == lex_token(s, st),
        lex_token(s, st).next == lex_token(s, lex_token(s, st).next).next,
{
    let t = skip_ws(s, st);
    lemma_skip_ws_stops(s, st);
    assert(token_at(s, t.pos).1 == 0);
    assert(lex_token(s, st).next == t);
    assert(skip_ws(s, t) == t);
}

/// The state in which a lexer over `s` starts.
pub open spec fn initial_state() -> LexState {
    LexState { pos: 0, line: 1, col: 1 }
}

/// The state after reading `n` tokens from the start of `s`.
pub open spec fn state_after(s: Seq<char>, n: nat) -> LexState
    decreases n,
{
    if n == 0 {
        initial_state()
    } else {
        lex_token(s, state_after(s, (n - 1) as nat)).next
    }
}

/// The `n`-th token (from 0) of `s`.
pub open spec fn nth_token(s: Seq<char>, n: nat) -> Lexed {
    lex_token(s, state_after(s, n))
}

/// Reading tokens one at a time from the start of `s` goes through the
/// states `state_after(s, n)`: read number `n` (from 0) starts in
/// `state_after(s, n)`, gives `nth_token(s, n)` (what `tokenize_all` puts at
/// index `n`) and ends in `state_after(s, n + 1)`.
pub proof fn lemma_reads_in_sequence(s: Seq<char>, n: nat)
    ensures
        nth_token(s, n) == lex_token(s, state_after(s, n)),
        state_after(s, n + 1) == nth_token(s, n).next,
        state_after(s, 0) == initial_state(),
{
}

/// The lexed token `l` as a plain token.
pub open spec fn tok_of(l: Lexed) -> crate::grammar::TokM {
    crate::grammar::TokM { kind: l.kind, line: l.line as usize, col: l.col as usize }
}

/// The first token from state `st` that is not a comment.
pub open spec fn nc_token(s: Seq<char>, st: LexState) -> Lexed
    decreases s.len() + 1 - st.pos,
{
    let l = lex_token(s, st);
    if crate::grammar::km_tag(l.kind) == TokenTag::Comment && st.pos < l.next.pos <= s.len() + 1 {
        nc_token(s, l.next)
    } else {
        l
    }
}

proof fn lemma_scan_until_bounds(s: Seq<char>, i: int, stop: char)
    requires
        0 <= i,
    ensures
        i <= scan_until(s, i, stop),
        i <= s.len() ==> scan_until(s, i, stop) <= s.len(),
    decreases s.len() - i,
{
    if 0 <= i < s.len() && s[i] != stop && s[i] != '\0' {
        lemma_scan_until_bounds(s, i + 1, stop);
    }
}

/// Reading past comments: from any state, the next token that is not a
/// comment is the next token itself when that is not a comment, and else
/// the next one that is not a comment after it; a comment always moves the
/// lexer forward. So the tokens of `tokenize_all` without the comments are
/// those that `next_non_comment_token` gives one after another.
pub proof fn law_comments_are_skipped(s: Seq<char>, st: LexState)
    requires
        0 <= st.pos <= s.len(),
    ensures
        crate::grammar::km_tag(lex_token(s, st).kind) != TokenTag::Comment ==> nc_token(s, st) == lex_token(
            s,
            st,
        ),
        crate::grammar::km_tag(lex_token(s, st).kind) == TokenTag::Comment ==> {
            &&& st.pos < lex_token(s, st).next.pos <= s.len()
            &&& nc_token(s, st) == nc_token(s, lex_token(s, st).next)
        },
{
    let t = skip_ws(s, st);
    lemma_skip_ws_tracks(s, st);
    if crate::grammar::km_tag(lex_token(s, st).kind) == TokenTag::Comment {
        assert(char_at(s, t.pos) == '/' && char_at(s, t.pos + 1) == '/');
        lemma_scan_until_bounds(s, t.pos + 2, '\n');
    }
}

/// The tokens from state `st` on that are not comments, up to and including
/// the first end of input.
pub open spec fn source_tokens_from(s: Seq<char>, st: LexState) -> Seq<crate::grammar::TokM>
    decreases s.len() + 1 - st.pos,
{
    let l = nc_token(s, st);
    if crate::grammar::km_tag(l.kind) != TokenTag::Eof && st.pos < l.next.pos <= s.len() + 1 {
        seq![tok_of(l)] + source_tokens_from(s, l.next)
    } else {
        seq![tok_of(l)]
    }
}

/// The tokens of a source text that the parser reads: all but comments, up
/// to and including the end of input.
pub open spec fn source_tokens(s: Seq<char>) -> Seq<crate::grammar::TokM> {
    source_tokens_from(s, initial_state())
}

/// Whether a token equals the lexed token `l`.
pub open spec fn token_matches(t: Token, l: Lexed) -> bool {
    t.kind.model() == l.kind && t.line == l.line && t.column == l.col
}

pub struct Lexer {
    input: Vec<char>,
    position: usize,
    line: usize,
    column: usize,
}

impl Lexer {
    pub closed spec fn text(&self) -> Seq<char> {
        self.input@
    }

    pub closed spec fn state(&self) -> LexState {
        LexState { pos: self.position as int, line: self.line as int, col: self.column as int }
    }

    pub closed spec fn wf(&self) -> bool {
        &&& self.input.len() < usize::MAX
        &&& self.position <= self.input.len()
        &&& 1 <= self.line <= self.position + 1
        &&& 1 <= self.column <= self.position + 1
    }

    pub proof fn lemma_bounds(&self)
        requires
            self.wf(),
        ensures
            0 <= self.state().pos <= self.text().len(),
    {
    }

    pub fn new(input: &str) -> (l: Lexer)
        ensures
            l.wf(),
            l.text() == input@,
            l.state() == initial_state(),
    {
        let chars = chars_of(input);
        Lexer { input: chars, position: 0, line: 1, column: 1 }
    }

    fn cur(&self) -> (c: char)
        ensures
            c == char_at(self.input@, self.position as int),
    {
        if self.position < self.input.len() {
            self.input[self.position]
        } else {
            '\0'
        }
    }

    fn peek_char(&self) -> (c: char)
        requires
            self.wf(),
        ensures
            c == char_at(self.input@, self.position + 1),
    {
        if self.position + 1 < self.input.len() {
            self.input[self.position + 1]
        } else {
            '\0'
        }
    }

    fn read_char(&mut self)
        requires
            old(self).wf(),
            old(self).position < old(self).input.len(),
        ensures
            final(self).wf(),
            final(self).input == old(self).input,
            final(self).position == old(self).position + 1,
            final(self).line == old(self).line,
            final(self).column == old(self).column + 1,
    {
        self.position = self.position + 1;
        self.column = self.column + 1;
    }

    fn skip_whitespace(&mut self)
        requires
            old(self).wf(),
        ensures
            final(self).wf(),
            final(self).input == old(self).input,
            final(self).state() == skip_ws(old(self).input@, old(self).state()),
            final(self).position >= old(self).position,
    {
        while self.position < self.input.len() && is_whitespace(self.input[self.position])
            invariant
                self.wf(),
                self.input == old(self).input,
                skip_ws(self.input@, self.state()) == skip_ws(old(self).input@, old(self).state()),
                self.position >= old(self).position,
            decreases self.input.len() - self.position,
        {
            let newline = self.input[self.position] == '\n';
            self.read_char();
            if newline {
                self.line = self.line + 1;
                self.column = 1;
            }
        }
    }

    /// Reads characters while they are digits; returns where the run ends.
    fn read_digits(&mut self)
        requires
            old(self).wf(),
        ensures
            final(self).wf(),
            final(self).input == old(self).input,
            final(self).line == old(self).line,
            final(self).position == digits_end(old(self).input@, old(self).position as int),
            final(self).position >= old(self).position,
            old(self).position < old(self).input.len() && is_number_char(
                old(self).input@[old(self).position as int],
            ) ==> final(self).position > old(self).position,
            forall|k: int|
                old(self).position <= k < final(self).position ==> is_number_char(
                    #[trigger] old(self).input@[k],
                ),
            final(self).column == old(self).column + final(self).position - old(self).position,
    {
        while self.position < self.input.len() && (is_ascii_digit(self.input[self.position])
            || is_myanmar_digit(self.input[self.position]))
            invariant
                self.wf(),
                self.input == old(self).input,
                self.line == old(self).line,
                old(self).position <= self.position,
                self.column == old(self).column + self.position - old(self).position,
                digits_end(self.input@, self.position as int) == digits_end(
                    self.input@,
                    old(self).position as int,
                ),
                forall|k: int|
                    old(self).position <= k < self.position ==> is_number_char(
                        #[trigger] self.input@[k],
                    ),
            decreases self.input.len() - self.position,
        {
            self.read_char();
        }
    }

    fn read_identifier(&mut self)
        requires
            old(self).wf(),
        ensures
            final(self).wf(),
            final(self).input == old(self).input,
            final(self).line == old(self).line,
            final(self).position == ident_end(old(self).input@, old(self).position as int),
            final(self).position >= old(self).position,
            old(self).position < old(self).input.len() && is_letter_or_myanmar_spec(
                old(self).input@[old(self).position as int],
            ) ==> final(self).position > old(self).position,
            final(self).column == old(self).column + final(self).position - old(self).position,
    {
        while self.position < self.input.len() && is_letter_or_myanmar(self.input[self.position])
            invariant
                self.wf(),
                self.input == old(self).input,
                self.line == old(self).line,
                old(self).position <= self.position,
                self.column == old(self).column + self.position - old(self).position,
                ident_end(self.input@, self.position as int) == ident_end(
                    self.input@,
                    old(self).position as int,
                ),
            decreases self.input.len() - self.position,
        {
            self.read_char();
        }
    }

    fn read_until(&mut self, stop: char)
        requires
            old(self).wf(),
        ensures
            final(self).wf(),
            final(self).input == old(self).input,
            final(self).line == old(self).line,
            final(self).position == scan_until(old(self).input@, old(self).position as int, stop),
            final(self).position >= old(self).position,
            final(self).column == old(self).column + final(self).position - old(self).position,
    {
        while self.position < self.input.len() && self.input[self.position] != stop
            && self.input[self.position] != '\0'
            invariant
                self.wf(),
                self.input == old(self).input,
                self.line == old(self).line,
                old(self).position <= self.position,
                self.column == old(self).column + self.position - old(self).position,
                scan_until(self.input@, self.position as int, stop) == scan_until(
                    self.input@,
                    old(self).position as int,
                    stop,
                ),
            decreases self.input.len() - self.position,
        {
            self.read_char();
        }
    }

    /// Reads the next token, comments included.
    pub fn next_token(&mut self) -> (tok: Token)
        requires
            old(self).wf(),
        ensures
            final(self).wf(),
            final(self).text() == old(self).text(),
            token_matches(tok, lex_token(old(self).text(), old(self).state())),
            final(self).state().pos >= old(self).state().pos,
            final(self).state() == lex_token(old(self).text(), old(self).state()).next,
            tok.kind.tag_of() != TokenTag::Eof ==> final(self).state().pos > old(self).state().pos,
    {
        self.skip_whitespace();
        let start_col = self.column;
        let start_line = self.line;
        let start = self.position;
        let ghost s = self.input@;
        let c = self.cur();
        let c2 = self.peek_char();
        let kind: TokenKind;
        if c == '+' || c == '*' || c == '(' || c == ')' || c == '{' || c == '}' || c == '['
            || c == ']' || c == ',' || c == ';' || c == ':' || c == '.' {
            kind = if c == '+' {
                TokenKind::Plus
            } else if c == '*' {
                TokenKind::Star
            } else if c == '(' {
                TokenKind::LParen
            } else if c == ')' {
                TokenKind::RParen
            } else if c == '{' {
                TokenKind::LBrace
            } else if c == '}' {
                TokenKind::RBrace
            } else if c == '[' {
                TokenKind::LBracket
            } else if c == ']' {
                TokenKind::RBracket
            } else if c == ',' {
                TokenKind::Comma
            } else if c == ';' {
                TokenKind::Semicolon
            } else if c == ':' {
                TokenKind::Colon
            } else {
                TokenKind::Dot
            };
            self.read_char();
        } else if c == '-' || c == '=' || c == '!' || c == '>' || c == '<' {
            let two = (c == '-' && c2 == '>') || (c != '-' && c2 == '=');
            kind = if c == '-' {
                if two { TokenKind::Arrow } else { TokenKind::Minus }
            } else if c == '=' {
                if two { TokenKind::Equals } else { TokenKind::Assign }
            } else if c == '!' {
                if two { TokenKind::NotEquals } else { TokenKind::Illegal }
            } else if c == '>' {
                if two { TokenKind::GreaterEquals } else { TokenKind::GreaterThan }
            } else {
                if two { TokenKind::LessEquals } else { TokenKind::LessThan }
            };
            self.read_char();
            if two {
                self.read_char();
            }
        } else if c == '/' {
            if c2 == '/' {
                self.read_char();
                self.read_char();
                let from = self.position;
                self.read_until('\n');
                let text = copy_range(&self.input, from, self.position);
                let trimmed = trim_end_chars(&text);
                kind = TokenKind::Comment(string_of(trimmed.as_slice()));
            } else {
                self.read_char();
                kind = TokenKind::Slash;
            }
        } else if c == '"' {
            self.read_char();
            let from = self.position;
            self.read_until('"');
            let text = copy_range(&self.input, from, self.position);
            if self.position < self.input.len() && self.input[self.position] == '"' {
                self.read_char();
            }
            kind = TokenKind::StringLiteral(string_of(text.as_slice()));
        } else if c == '\0' {
            kind = TokenKind::Eof;
        } else if is_ascii_digit(c) || is_myanmar_digit(c) {
            kind = self.read_number();
        } else if is_letter_or_myanmar(c) {
            self.read_identifier();
            let word = copy_range(&self.input, start, self.position);
            kind = lookup_ident(string_of(word.as_slice()));
        } else {
            self.read_char();
            kind = TokenKind::Illegal;
        }
        Token { kind, line: start_line, column: start_col }
    }

    fn read_number(&mut self) -> (kind: TokenKind)
        requires
            old(self).wf(),
            old(self).position < old(self).input.len(),
            is_number_char(old(self).input@[old(self).position as int]),
        ensures
            final(self).wf(),
            final(self).input == old(self).input,
            final(self).line == old(self).line,
            kind.model() == token_at(old(self).input@, old(self).position as int).0,
            final(self).position == old(self).position + token_at(
                old(self).input@,
                old(self).position as int,
            ).1,
            final(self).column == old(self).column + final(self).position - old(self).position,
            final(self).position > old(self).position,
    {
        let start = self.position;
        self.read_digits();
        let end = self.position;
        let value = digits_to_i64(&self.input, start, end);
        let c = self.cur();
        let c2 = self.peek_char();
        if c == '.' && (is_ascii_digit(c2) || is_myanmar_digit(c2)) {
            self.read_char();
            let fstart = self.position;
            self.read_digits();
            let fraction = digit_values_exec(&self.input, fstart, self.position);
            TokenKind::FloatLiteral(DecimalLiteral { whole: value, fraction })
        } else {
            TokenKind::Number(value)
        }
    }
}

/// `v[lo..hi]` as a new vector.
pub fn copy_range(v: &Vec<char>, lo: usize, hi: usize) -> (r: Vec<char>)
    requires
        lo <= hi <= v.len(),
    ensures
        r@ == v@.subrange(lo as int, hi as int),
{
    let mut out: Vec<char> = Vec::new();
    let mut i = lo;
    while i < hi
        invariant
            lo <= i <= hi <= v.len(),
            out@ == v@.subrange(lo as int, i as int),
        decreases hi - i,
    {
        out.push(v[i]);
        i = i + 1;
        assert(v@.subrange(lo as int, i as int) =~= v@.subrange(lo as int, i - 1) + seq![
            v@[i - 1],
        ]);
    }
    out
}

/// `v` without its trailing whitespace.
pub fn trim_end_chars(v: &Vec<char>) -> (r: Vec<char>)
    ensures
        r@ == trim_end_spec(v@),
{
    let mut hi = v.len();
    assert(v@.subrange(0, v.len() as int) =~= v@);
    while hi > 0 && is_whitespace(v[hi - 1])
        invariant
            hi <= v.len(),
            trim_end_spec(v@.subrange(0, hi as int)) == trim_end_spec(v@),
        decreases hi,
    {
        assert(v@.subrange(0, hi as int).drop_last() =~= v@.subrange(0, hi - 1));
        hi = hi - 1;
    }
    assert(v@.subrange(0, v.len() as int) =~= v@);
    copy_range(v, 0, hi)
}

/// `v` without its leading whitespace.
pub fn trim_start_chars(v: &Vec<char>) -> (r: Vec<char>)
    ensures
        r@ == trim_start_spec(v@),
{
    let mut lo: usize = 0;
    assert(v@.subrange(0, v.len() as int) =~= v@);
    while lo < v.len() && is_whitespace(v[lo])
        invariant
            lo <= v.len(),
            trim_start_spec(v@.subrange(lo as int, v.len() as int)) == trim_start_spec(v@),
        decreases v.len() - lo,
    {
        assert(v@.subrange(lo as int, v.len() as int).drop_first() =~= v@.subrange(
            lo + 1,
            v.len() as int,
        ));
        lo = lo + 1;
    }
    assert(v@.subrange(0, v.len() as int) =~= v@);
    copy_range(v, lo, v.len())
}

fn digit_of(c: char) -> (d: i64)
    requires
        is_number_char(c),
    ensures
        d == digit_value(c),
        0 <= d <= 9,
{
    if is_ascii_digit(c) {
        (c as u32 - '0' as u32) as i64
    } else {
        (c as u32 - 0x1040u32) as i64
    }
}

fn digits_to_i64(v: &Vec<char>, lo: usize, hi: usize) -> (r: i64)
    requires
        lo <= hi <= v.len(),
        forall|k: int| lo <= k < hi ==> is_number_char(#[trigger] v@[k]),
    ensures
        r == digits_value(v@, lo as int, hi as int),
{
    let mut value: i64 = 0;
    let mut i = lo;
    while i < hi
        invariant
            lo <= i <= hi <= v.len(),
            forall|k: int| lo <= k < hi ==> is_number_char(#[trigger] v@[k]),
            value == digits_value(v@, lo as int, i as int),
        decreases hi - i,
    {
        let d = digit_of(v[i]);
        value = ((value as i128) * 10 + (d as i128)) as i64;
        i = i + 1;
    }
    value
}

fn digit_values_exec(v: &Vec<char>, lo: usize, hi: usize) -> (r: Vec<u8>)
    requires
        lo <= hi <= v.len(),
        forall|k: int| lo <= k < hi ==> is_number_char(#[trigger] v@[k]),
    ensures
        r@ == digit_values(v@, lo as int, hi as int),
{
    let mut out: Vec<u8> = Vec::new();
    let mut i = lo;
    while i < hi
        invariant
            lo <= i <= hi <= v.len(),
            forall|k: int| lo <= k < hi ==> is_number_char(#[trigger] v@[k]),
            out@ == digit_values(v@, lo as int, i as int),
        decreases hi - i,
    {
        let d = digit_of(v[i]);
        out.push(d as u8);
        i = i + 1;
    }
    out
}

pub fn is_letter_or_myanmar(c: char) -> (r: bool)
    ensures
        r == is_letter_or_myanmar_spec(c),
{
    char_is_alphabetic(c) || c == '_' || ('\u{1000}' <= c && c <= '\u{109F}')
}

/// The keyword token for a word, or an identifier.
pub fn lookup_ident(w: String) -> (k: TokenKind)
    ensures
        k.model() == lookup_ident_spec(w@),
{
    let s = w.as_str();
    if str_eq(s, "kain") {
        TokenKind::Kain
    } else if str_eq(s, "sar") {
        TokenKind::Sar
    } else if str_eq(s, "sit") {
        TokenKind::Sit
    } else if str_eq(s, "da_tha") {
        TokenKind::DaTha
    } else if str_eq(s, "hman") {
        TokenKind::Hman
    } else if str_eq(s, "hmar") {
        TokenKind::Hmar
    } else if str_eq(s, "bhala") {
        TokenKind::Bhala
    } else if str_eq(s, "hlyin") {
        TokenKind::Hlyin
    } else if str_eq(s, "mo") {
        TokenKind::Mo
    } else if str_eq(s, "pat") {
        TokenKind::Pat
    } else if str_eq(s, "htae") {
        TokenKind::Htae
    } else if str_eq(s, "laung") {
        TokenKind::Laung
    } else if str_eq(s, "baung") {
        TokenKind::Baung
    } else if str_eq(s, "yut") {
        TokenKind::Break
    } else if str_eq(s, "shar") {
        TokenKind::Continue
    } else if str_eq(s, "kyoe") {
        TokenKind::Kyoe
    } else if str_eq(s, "naut_sone") {
        TokenKind::NautSone
    } else if str_eq(s, "set_sae") {
        TokenKind::SetSae
    } else if str_eq(s, "loke") {
        TokenKind::Loke
    } else if str_eq(s, "pyan") {
        TokenKind::Pyan
    } else if str_eq(s, "pya") {
        TokenKind::Pya
    } else if str_eq(s, "phat") {
        TokenKind::Phat
    } else if str_eq(s, "su") {
        TokenKind::Su
    } else if str_eq(s, "yu") {
        TokenKind::Yu
    } else if str_eq(s, "twe") {
        TokenKind::Twe
    } else if str_eq(s, "atote") {
        TokenKind::Atote
    } else if str_eq(s, "pay") {
        TokenKind::Pay
    } else if str_eq(s, "pone") {
        TokenKind::Pone
    } else if str_eq(s, "nee") {
        TokenKind::Nee
    } else if str_eq(s, "myat") {
        TokenKind::Myat
    } else if str_eq(s, "amhar") {
        TokenKind::Amhar
    } else {
        TokenKind::Identifier(w)
    }
}

impl Lexer {
    /// Reads the next token that is not a comment.
    pub fn next_non_comment_token(&mut self) -> (tok: Token)
        requires
            old(self).wf(),
        ensures
            final(self).wf(),
            final(self).text() == old(self).text(),
            tok.kind.tag_of() != TokenTag::Comment,
            final(self).state().pos >= old(self).state().pos,
            tok.kind.tag_of() != TokenTag::Eof ==> final(self).state().pos > old(self).state().pos,
            token_matches(tok, nc_token(old(self).text(), old(self).state())),
            final(self).state() == nc_token(old(self).text(), old(self).state()).next,
    {
        loop
            invariant
                self.wf(),
                self.text() == old(self).text(),
                self.state().pos >= old(self).state().pos,
                nc_token(self.text(), self.state()) == nc_token(old(self).text(), old(self).state()),
            decreases self.input.len() - self.position,
        {
            proof {
                self.lemma_bounds();
            }
            let tok = self.next_token();
            if tok.kind.tag() != TokenTag::Comment {
                return tok;
            }
        }
    }
}

/// Tokenizes the whole input, comments included, up to and including the
/// first end-of-file token.
pub fn tokenize_all(input: &str) -> (tokens: Vec<Token>)
    ensures
        tokens.len() >= 1,
        tokens@.last().kind.tag_of() == TokenTag::Eof,
        forall|i: int| 0 <= i < tokens.len() - 1 ==> tokens@[i].kind.tag_of() != TokenTag::Eof,
        forall|i: int|
            0 <= i < tokens.len() ==> token_matches(#[trigger] tokens@[i], nth_token(input@, i as nat)),
{
    let mut lexer = Lexer::new(input);
    let mut tokens: Vec<Token> = Vec::new();
    loop
        invariant
            lexer.wf(),
            lexer.text() == input@,
            lexer.state() == state_after(input@, tokens.len() as nat),
            forall|i: int| 0 <= i < tokens.len() ==> tokens@[i].kind.tag_of() != TokenTag::Eof,
            forall|i: int|
                0 <= i < tokens.len() ==> token_matches(#[trigger] tokens@[i], nth_token(input@, i as nat)),
        decreases lexer.input.len() + 1 - lexer.position,
    {
        let tok = lexer.next_token();
        let is_eof = tok.kind.tag() == TokenTag::Eof;
        tokens.push(tok);
        if is_eof {
            return tokens;
        }
    }
}

} // verus!
