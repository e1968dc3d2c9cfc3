//! Semantic highlighting: the tokens of a document as an editor colours
//! them, each placed relative to the one before.
use vstd::prelude::*;

use crate::lexer::{lex_token, nth_token, state_after, Lexed, Lexer};
use crate::render::{decimal_text, int_text, push_decimal, push_i64};
use crate::text::chars_of;
use crate::token::{KindModel, TokenKind, TokenTag};

verus! {

/// The token types and modifiers the server announces, in the order the
/// type numbers of its tokens refer to.
pub struct TokenLegend {
    pub token_types: Vec<&'static str>,
    pub token_modifiers: Vec<&'static str>,
}

/// The token type names, in the order of their numbers.
pub open spec fn legend_types() -> Seq<Seq<char>> {
    seq![
        "keyword"@,
        "variable"@,
        "function"@,
        "number"@,
        "string"@,
        "operator"@,
        "type"@,
        "comment"@,
    ]
}

/// The legend of the semantic tokens: eight token types, no modifiers.
pub fn legend() -> (r: TokenLegend)
    ensures
        Seq::new(r.token_types@.len(), |i: int| r.token_types@[i]@) == legend_types(),
        r.token_modifiers@.len() == 0,
{
    let mut types: Vec<&'static str> = Vec::new();
    types.push("keyword");
    types.push("variable");
    types.push("function");
    types.push("number");
    types.push("string");
    types.push("operator");
    types.push("type");
    types.push("comment");
    assert(Seq::new(types@.len(), |i: int| types@[i]@) =~= legend_types());
    TokenLegend { token_types: types, token_modifiers: Vec::new() }
}

/// Whether a token is a keyword other than a type name.
pub open spec fn is_keyword_tag(t: TokenTag) -> bool {
    t == TokenTag::Hlyin || t == TokenTag::Mo || t == TokenTag::Pat || t == TokenTag::Htae || t == TokenTag::Kyoe
        || t == TokenTag::NautSone || t == TokenTag::SetSae || t == TokenTag::Loke || t == TokenTag::Pyan || t
        == TokenTag::Pya || t == TokenTag::Phat || t == TokenTag::Yu || t == TokenTag::Atote || t == TokenTag::Pay
        || t == TokenTag::Hman || t == TokenTag::Hmar || t == TokenTag::Bhala || t == TokenTag::Pone || t
        == TokenTag::Nee || t == TokenTag::Myat
}

/// Whether a token names a type.
pub open spec fn is_type_tag(t: TokenTag) -> bool {
    t == TokenTag::Kain || t == TokenTag::Sar || t == TokenTag::Sit || t == TokenTag::Su || t == TokenTag::Laung
        || t == TokenTag::Baung || t == TokenTag::Twe || t == TokenTag::DaTha || t == TokenTag::Amhar
}

/// Whether a token is an operator or the dot.
pub open spec fn is_operator_tag(t: TokenTag) -> bool {
    t == TokenTag::Plus || t == TokenTag::Minus || t == TokenTag::Star || t == TokenTag::Slash || t
        == TokenTag::Assign || t == TokenTag::Equals || t == TokenTag::NotEquals || t == TokenTag::GreaterThan || t
        == TokenTag::LessThan || t == TokenTag::GreaterEquals || t == TokenTag::LessEquals || t == TokenTag::Arrow
        || t == TokenTag::Dot
}

/// The number of a token's type in the legend; none for tokens that are
/// not highlighted (punctuation, comments, `yut`, `shar` and the rest).
pub open spec fn token_type_of(k: KindModel) -> Option<u32> {
    match k {
        KindModel::Plain(t) => if is_keyword_tag(t) {
            Some(0)
        } else if is_type_tag(t) {
            Some(6)
        } else if is_operator_tag(t) {
            Some(5)
        } else {
            None
        },
        KindModel::Identifier(_) => Some(1),
        KindModel::Number(_) => Some(3),
        KindModel::FloatLiteral(_, _) => Some(3),
        KindModel::StringLiteral(_) => Some(4),
        KindModel::Comment(_) => None,
    }
}

/// Each highlighted token's type number names its lexical class in the
/// legend: a string literal is a `string`, a number a `number`, a name a
/// `variable`, an operator an `operator`, a type name (`kain`, `sar`, `sit`,
/// `da_tha`, `su`, `twe`, `laung`, `baung`, `amhar`) a `type` and any other
/// keyword a `keyword`; a highlighted keyword or operator spans the
/// characters of its word or symbol, except `kyoe`, which is given five.
pub proof fn law_token_types(k: KindModel)
    ensures
        k is StringLiteral ==> token_type_of(k) is Some && legend_types()[token_type_of(k)->0 as int]
            == "string"@,
        (k is Number || k is FloatLiteral) ==> token_type_of(k) is Some && legend_types()[token_type_of(
            k,
        )->0 as int] == "number"@,
        k is Identifier ==> token_type_of(k) is Some && legend_types()[token_type_of(k)->0 as int]
            == "variable"@,
        k is Comment ==> token_type_of(k) is None,
        (k matches KindModel::Plain(t) && (t == TokenTag::Kain || t == TokenTag::Sar || t == TokenTag::Sit
            || t == TokenTag::DaTha || t == TokenTag::Su || t == TokenTag::Twe || t == TokenTag::Laung || t
            == TokenTag::Baung || t == TokenTag::Amhar)) ==> token_type_of(k) is Some && legend_types()[token_type_of(
            k,
        )->0 as int] == "type"@,
        (k matches KindModel::Plain(t) && crate::parser::is_infix_operator(t)) ==> token_type_of(k) is Some
            && legend_types()[token_type_of(k)->0 as int] == "operator"@,
        (k matches KindModel::Plain(t) && (t == TokenTag::Assign || t == TokenTag::Arrow || t == TokenTag::Dot))
            ==> token_type_of(k) is Some && legend_types()[token_type_of(k)->0 as int] == "operator"@,
        (k matches KindModel::Plain(t) && (t == TokenTag::Hlyin || t == TokenTag::Mo || t == TokenTag::Pat || t
            == TokenTag::Htae || t == TokenTag::Kyoe || t == TokenTag::NautSone || t == TokenTag::SetSae || t
            == TokenTag::Loke || t == TokenTag::Pyan || t == TokenTag::Pya || t == TokenTag::Phat || t
            == TokenTag::Yu || t == TokenTag::Atote || t == TokenTag::Pay || t == TokenTag::Hman || t
            == TokenTag::Hmar || t == TokenTag::Bhala || t == TokenTag::Pone || t == TokenTag::Nee || t
            == TokenTag::Myat)) ==> token_type_of(k) is Some && legend_types()[token_type_of(k)->0 as int]
            == "keyword"@,
        (k is Plain && token_type_of(k) is Some && crate::lexer::keyword_text(k->Plain_0).len() > 0 && k->Plain_0
            != TokenTag::Kyoe) ==> plain_length(k->Plain_0) == crate::lexer::keyword_text(k->Plain_0).len(),
        plain_length(TokenTag::Kyoe) == 5,
        (k is Plain && token_type_of(k) is Some && crate::lexer::symbol_text(k->Plain_0).len() > 0)
            ==> plain_length(k->Plain_0) == crate::lexer::symbol_text(k->Plain_0).len(),
{
    reveal_strlit("kain");
    reveal_strlit("sar");
    reveal_strlit("sit");
    reveal_strlit("da_tha");
    reveal_strlit("hman");
    reveal_strlit("hmar");
    reveal_strlit("bhala");
    reveal_strlit("hlyin");
    reveal_strlit("mo");
    reveal_strlit("pat");
    reveal_strlit("htae");
    reveal_strlit("laung");
    reveal_strlit("baung");
    reveal_strlit("kyoe");
    reveal_strlit("naut_sone");
    reveal_strlit("set_sae");
    reveal_strlit("loke");
    reveal_strlit("pyan");
    reveal_strlit("pya");
    reveal_strlit("phat");
    reveal_strlit("su");
    reveal_strlit("yu");
    reveal_strlit("twe");
    reveal_strlit("atote");
    reveal_strlit("pay");
    reveal_strlit("pone");
    reveal_strlit("nee");
    reveal_strlit("myat");
    reveal_strlit("amhar");
}

/// The number of a token's type in the legend, if it is highlighted.
pub fn token_type_index(kind: &TokenKind) -> (r: Option<u32>)
    ensures
        r == token_type_of(kind.model()),
{
    match kind {
        TokenKind::Hlyin | TokenKind::Mo | TokenKind::Pat | TokenKind::Htae | TokenKind::Kyoe
        | TokenKind::NautSone | TokenKind::SetSae | TokenKind::Loke | TokenKind::Pyan | TokenKind::Pya
        | TokenKind::Phat | TokenKind::Yu | TokenKind::Atote | TokenKind::Pay | TokenKind::Hman
        | TokenKind::Hmar | TokenKind::Bhala | TokenKind::Pone | TokenKind::Nee | TokenKind::Myat => Some(0),
        TokenKind::Kain | TokenKind::Sar | TokenKind::Sit | TokenKind::Su | TokenKind::Laung
        | TokenKind::Baung | TokenKind::Twe | TokenKind::DaTha | TokenKind::Amhar => Some(6),
        TokenKind::Number(_) => Some(3),
        TokenKind::FloatLiteral(_) => Some(3),
        TokenKind::StringLiteral(_) => Some(4),
        TokenKind::Identifier(_) => Some(1),
        TokenKind::Plus | TokenKind::Minus | TokenKind::Star | TokenKind::Slash | TokenKind::Assign
        | TokenKind::Equals | TokenKind::NotEquals | TokenKind::GreaterThan | TokenKind::LessThan
        | TokenKind::GreaterEquals | TokenKind::LessEquals | TokenKind::Arrow => Some(5),
        TokenKind::Dot => Some(5),
        _ => None,
    }
}

/// The length given to a keyword, operator or punctuation token.
pub open spec fn plain_length(t: TokenTag) -> u32 {
    match t {
        TokenTag::Kain => 4,
        TokenTag::Sar => 3,
        TokenTag::Sit => 3,
        TokenTag::Hman => 4,
        TokenTag::Hmar => 4,
        TokenTag::Hlyin => 5,
        TokenTag::Mo => 2,
        TokenTag::Pat => 3,
        TokenTag::Htae => 4,
        TokenTag::Kyoe => 5,
        TokenTag::NautSone => 9,
        TokenTag::SetSae => 7,
        TokenTag::Loke => 4,
        TokenTag::Pyan => 4,
        TokenTag::Pya => 3,
        TokenTag::Phat => 4,
        TokenTag::Su => 2,
        TokenTag::Laung => 5,
        TokenTag::Baung => 5,
        TokenTag::Yu => 2,
        TokenTag::Atote => 5,
        TokenTag::Pay => 3,
        TokenTag::Twe => 3,
        TokenTag::DaTha => 6,
        TokenTag::Bhala => 5,
        TokenTag::Pone => 4,
        TokenTag::Nee => 3,
        TokenTag::Myat => 4,
        TokenTag::Amhar => 5,
        TokenTag::Equals | TokenTag::NotEquals | TokenTag::GreaterEquals | TokenTag::LessEquals
        | TokenTag::Arrow => 2,
        _ => 1,
    }
}

/// The length given to a token: the table's for keywords and operators, the
/// characters of a name, the digits of a number, a string with its quotes.
pub open spec fn token_len(k: KindModel) -> u32 {
    match k {
        KindModel::Plain(t) => plain_length(t),
        KindModel::Identifier(s) => s.len() as u32,
        KindModel::Number(n) => int_text(n as int).len() as u32,
        KindModel::FloatLiteral(w, f) => decimal_text(w, f, false).len() as u32,
        KindModel::StringLiteral(s) => (s.len() + 2) as u32,
        KindModel::Comment(_) => 1,
    }
}

/// The length given to a token.
pub fn token_length(kind: &TokenKind) -> (r: u32)
    ensures
        r == token_len(kind.model()),
{
    match kind {
        TokenKind::Kain => 4,
        TokenKind::Sar => 3,
        TokenKind::Sit => 3,
        TokenKind::Hman => 4,
        TokenKind::Hmar => 4,
        TokenKind::Hlyin => 5,
        TokenKind::Mo => 2,
        TokenKind::Pat => 3,
        TokenKind::Htae => 4,
        TokenKind::Kyoe => 5,
        TokenKind::NautSone => 9,
        TokenKind::SetSae => 7,
        TokenKind::Loke => 4,
        TokenKind::Pyan => 4,
        TokenKind::Pya => 3,
        TokenKind::Phat => 4,
        TokenKind::Su => 2,
        TokenKind::Laung => 5,
        TokenKind::Baung => 5,
        TokenKind::Yu => 2,
        TokenKind::Atote => 5,
        TokenKind::Pay => 3,
        TokenKind::Twe => 3,
        TokenKind::DaTha => 6,
        TokenKind::Bhala => 5,
        TokenKind::Pone => 4,
        TokenKind::Nee => 3,
        TokenKind::Myat => 4,
        TokenKind::Amhar => 5,
        TokenKind::FloatLiteral(d) => {
            let mut buf: Vec<char> = Vec::new();
            push_decimal(&mut buf, d.whole, &d.fraction, false);
            assert(buf@ =~= decimal_text(d.whole, d.fraction@, false));
            buf.len() as u32
        },
        TokenKind::Dot => 1,
        TokenKind::Identifier(s) => chars_of(s.as_str()).len() as u32,
        TokenKind::Number(n) => {
            let mut buf: Vec<char> = Vec::new();
            push_i64(&mut buf, *n);
            assert(buf@ =~= int_text(*n as int));
            buf.len() as u32
        },
        TokenKind::StringLiteral(s) => ((chars_of(s.as_str()).len() as u128) + 2) as u32,
        TokenKind::Equals | TokenKind::NotEquals | TokenKind::GreaterEquals | TokenKind::LessEquals
        | TokenKind::Arrow => 2,
        _ => 1,
    }
}

/// A highlighted token: its line and start relative to the token before it
/// (the start counts from the line's start when the line changed), its
/// length, and its type's number.
#[derive(Debug, Clone, Copy, PartialEq, Eq, Structural)]
pub struct SemanticTokenEntry {
    pub delta_line: u32,
    pub delta_start: u32,
    pub length: u32,
    pub token_type: u32,
    pub token_modifiers_bitset: u32,
}

/// `a - b` in 32-bit unsigned arithmetic, wrapping around below 0.
pub open spec fn sub_wrapping(a: u32, b: u32) -> u32 {
    if a >= b {
        (a - b) as u32
    } else {
        (a - b + 0x1_0000_0000) as u32
    }
}

/// A 1-based position, truncated to 32 bits, as 0-based (never below 0).
pub open spec fn zero_based_u32(n: int) -> u32 {
    let x = n as u32;
    if x > 0 {
        (x - 1) as u32
    } else {
        0
    }
}

/// The highlighted tokens so far, with the line and column of the last one.
pub type SemState = (Seq<SemanticTokenEntry>, u32, u32);

/// The state after one more token from the lexer.
pub open spec fn sem_step(st: SemState, tok: Lexed) -> SemState {
    match token_type_of(tok.kind) {
        None => st,
        Some(ti) => {
            let line = zero_based_u32(tok.line);
            let col = zero_based_u32(tok.col);
            let dl = sub_wrapping(line, st.1);
            let ds = if dl == 0 {
                sub_wrapping(col, st.2)
            } else {
                col
            };
            (
                st.0.push(
                    SemanticTokenEntry {
                        delta_line: dl,
                        delta_start: ds,
                        length: token_len(tok.kind),
                        token_type: ti,
                        token_modifiers_bitset: 0,
                    },
                ),
                line,
                col,
            )
        },
    }
}

/// The state after the first `n` tokens of a text.
pub open spec fn sem_state(s: Seq<char>, n: nat) -> SemState
    decreases n,
{
    if n == 0 {
        (Seq::empty(), 0, 0)
    } else {
        sem_step(sem_state(s, (n - 1) as nat), nth_token(s, (n - 1) as nat))
    }
}

/// Whether the lexer ends a text after exactly `n` tokens.
pub open spec fn ends_after(s: Seq<char>, n: nat) -> bool {
    &&& nth_token(s, n).kind == KindModel::Plain(TokenTag::Eof)
    &&& forall|i: nat| i < n ==> (#[trigger] nth_token(s, i)).kind != KindModel::Plain(TokenTag::Eof)
}

fn zero_based_exec(n: usize) -> (r: u32)
    ensures
        r == zero_based_u32(n as int),
{
    let x = n as u32;
    if x > 0 {
        x - 1
    } else {
        0
    }
}

fn sub_wrapping_exec(a: u32, b: u32) -> (r: u32)
    ensures
        r == sub_wrapping(a, b),
{
    if a >= b {
        a - b
    } else {
        ((a as u64) + 0x1_0000_0000 - (b as u64)) as u32
    }
}

/// The highlighted tokens of a text, in order, each placed relative to the
/// one before.
pub fn get_semantic_tokens(source: &str) -> (r: Vec<SemanticTokenEntry>)
    ensures
        exists|n: nat| #![trigger sem_state(source@, n)] ends_after(source@, n) && r@ == sem_state(source@, n).0,
{
    let mut lexer = Lexer::new(source);
    let mut tokens: Vec<SemanticTokenEntry> = Vec::new();
    let mut prev_line: u32 = 0;
    let mut prev_col: u32 = 0;
    let ghost mut n: nat = 0;
    loop
        invariant_except_break
            lexer.state() == state_after(source@, n),
        invariant
            lexer.wf(),
            lexer.text() == source@,
            (tokens@, prev_line, prev_col) == sem_state(source@, n),
            forall|i: nat| i < n ==> (#[trigger] nth_token(source@, i)).kind != KindModel::Plain(TokenTag::Eof),
        ensures
            ends_after(source@, n),
            tokens@ == sem_state(source@, n).0,
        decreases lexer.text().len() - lexer.state().pos,
    {
        proof {
            lexer.lemma_bounds();
        }
        let tok = lexer.next_token();
        let ghost lexed = nth_token(source@, n);
        assert(lexed == lex_token(source@, state_after(source@, n)));
        if tok.kind.tag() == TokenTag::Eof {
            proof {
                assert(tok.kind.model() == KindModel::Plain(TokenTag::Eof));
            }
            break;
        }
        proof {
            lexer.lemma_bounds();
            assert(tok.kind.model() != KindModel::Plain(TokenTag::Eof));
        }
        match token_type_index(&tok.kind) {
            Some(ti) => {
                let line = zero_based_exec(tok.line);
                let col = zero_based_exec(tok.column);
                let dl = sub_wrapping_exec(line, prev_line);
                let ds = if dl == 0 {
                    sub_wrapping_exec(col, prev_col)
                } else {
                    col
                };
                tokens.push(
                    SemanticTokenEntry {
                        delta_line: dl,
                        delta_start: ds,
                        length: token_length(&tok.kind),
                        token_type: ti,
                        token_modifiers_bitset: 0,
                    },
                );
                prev_line = line;
                prev_col = col;
            },
            None => {},
        }
        proof {
            n = n + 1;
            assert forall|i: nat| i < n implies (#[trigger] nth_token(source@, i)).kind != KindModel::Plain(
                TokenTag::Eof,
            ) by {
                if i < n - 1 {
                } else {
                    assert(i == n - 1);
                }
            }
        }
    }
    tokens
}

/// `a + b` in 32-bit unsigned arithmetic, wrapping around past the top.
pub open spec fn add_wrapping(a: u32, b: u32) -> u32 {
    if a + b < 0x1_0000_0000 {
        (a + b) as u32
    } else {
        (a + b - 0x1_0000_0000) as u32
    }
}

/// The 0-based line and column of each highlighted token among the first
/// `n` tokens of a text, in order.
pub open spec fn highlighted_positions(s: Seq<char>, n: nat) -> Seq<(u32, u32)>
    decreases n,
{
    if n == 0 {
        Seq::empty()
    } else {
        let rest = highlighted_positions(s, (n - 1) as nat);
        let tok = nth_token(s, (n - 1) as nat);
        match token_type_of(tok.kind) {
            Some(_) => rest.push((zero_based_u32(tok.line), zero_based_u32(tok.col))),
            None => rest,
        }
    }
}

/// How an editor reads the entries back: each line is the previous one
/// plus the entry's line delta, and each start the previous start plus its
/// start delta on the same line, or the start delta itself on a new line.
/// Gives the positions read, with the last line and start.
pub open spec fn decode_entries(es: Seq<SemanticTokenEntry>) -> (Seq<(u32, u32)>, u32, u32)
    decreases es.len(),
{
    if es.len() == 0 {
        (Seq::empty(), 0, 0)
    } else {
        let (ps, pl, pc) = decode_entries(es.drop_last());
        let e = es.last();
        let line = add_wrapping(pl, e.delta_line);
        let col = if e.delta_line == 0 {
            add_wrapping(pc, e.delta_start)
        } else {
            e.delta_start
        };
        (ps.push((line, col)), line, col)
    }
}

proof fn lemma_decode_state(s: Seq<char>, n: nat)
    ensures
        decode_entries(sem_state(s, n).0) == (highlighted_positions(s, n), sem_state(s, n).1, sem_state(s, n).2),
    decreases n,
{
    if n > 0 {
        lemma_decode_state(s, (n - 1) as nat);
        let st = sem_state(s, (n - 1) as nat);
        let tok = nth_token(s, (n - 1) as nat);
        match token_type_of(tok.kind) {
            Some(ti) => {
                let es = sem_state(s, n).0;
                assert(es.drop_last() =~= st.0);
            },
            None => {},
        }
    }
}

/// Reading the entries back as an editor does gives every highlighted
/// token's 0-based line and column, in order: the relative encoding loses
/// nothing.
pub proof fn law_semantic_tokens_decode(source: Seq<char>, n: nat)
    ensures
        decode_entries(sem_state(source, n).0).0 == highlighted_positions(source, n),
{
    lemma_decode_state(source, n);
}

} // verus!
