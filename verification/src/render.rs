//! Text renderings of numbers and tokens used in messages and output.
use vstd::prelude::*;

use crate::text::push_str;
use crate::token::{KindModel, TokenKind, TokenTag};

verus! {

pub open spec fn digit_char(d: nat) -> char {
    if d == 0 {
        '0'
    } else if d == 1 {
        '1'
    } else if d == 2 {
        '2'
    } else if d == 3 {
        '3'
    } else if d == 4 {
        '4'
    } else if d == 5 {
        '5'
    } else if d == 6 {
        '6'
    } else if d == 7 {
        '7'
    } else if d == 8 {
        '8'
    } else {
        '9'
    }
}

/// The decimal digits of `n`, most significant first.
pub open spec fn nat_digits(n: nat) -> Seq<char>
    decreases n,
{
    if n < 10 {
        seq![digit_char(n)]
    } else {
        nat_digits(n / 10).push(digit_char(n % 10))
    }
}

/// The decimal text of an integer, with a leading `-` when negative.
pub open spec fn int_text(n: int) -> Seq<char> {
    if n < 0 {
        seq!['-'] + nat_digits((-n) as nat)
    } else {
        nat_digits(n as nat)
    }
}

fn digit_to_char(d: u64) -> (c: char)
    ensures
        c == digit_char(d as nat),
{
    if d == 0 {
        '0'
    } else if d == 1 {
        '1'
    } else if d == 2 {
        '2'
    } else if d == 3 {
        '3'
    } else if d == 4 {
        '4'
    } else if d == 5 {
        '5'
    } else if d == 6 {
        '6'
    } else if d == 7 {
        '7'
    } else if d == 8 {
        '8'
    } else {
        '9'
    }
}

/// Appends the decimal digits of `n`.
pub fn push_u64(buf: &mut Vec<char>, n: u64)
    ensures
        final(buf)@ == old(buf)@ + nat_digits(n as nat),
    decreases n,
{
    if n >= 10 {
        push_u64(buf, n / 10);
    }
    buf.push(digit_to_char(n % 10));
    proof {
        if n >= 10 {
            assert(final(buf)@ =~= old(buf)@ + nat_digits(n as nat));
        } else {
            assert(final(buf)@ =~= old(buf)@ + nat_digits(n as nat));
        }
    }
}

/// Appends the decimal text of `n`.
pub fn push_i64(buf: &mut Vec<char>, n: i64)
    ensures
        final(buf)@ == old(buf)@ + int_text(n as int),
{
    if n < 0 {
        buf.push('-');
        let m: i128 = -(n as i128);
        push_u64(buf, m as u64);
        assert(final(buf)@ =~= old(buf)@ + int_text(n as int));
    } else {
        push_u64(buf, n as u64);
    }
}

/// Appends the decimal digits of `n`.
pub fn push_usize(buf: &mut Vec<char>, n: usize)
    ensures
        final(buf)@ == old(buf)@ + nat_digits(n as nat),
{
    push_u64(buf, n as u64);
}

/// How a character appears inside a quoted string in debug output.
pub open spec fn escape_char(c: char) -> Seq<char> {
    if c == '"' {
        seq!['\\', '"']
    } else if c == '\\' {
        seq!['\\', '\\']
    } else if c == '\n' {
        seq!['\\', 'n']
    } else if c == '\r' {
        seq!['\\', 'r']
    } else if c == '\t' {
        seq!['\\', 't']
    } else if c == '\0' {
        seq!['\\', '0']
    } else {
        seq![c]
    }
}

pub open spec fn escape_seq(s: Seq<char>) -> Seq<char>
    decreases s.len(),
{
    if s.len() == 0 {
        Seq::empty()
    } else {
        escape_seq(s.drop_last()) + escape_char(s.last())
    }
}

/// A string as debug output shows it: quoted, with quotes, backslashes and
/// control characters escaped.
pub open spec fn quoted(s: Seq<char>) -> Seq<char> {
    seq!['"'] + escape_seq(s) + seq!['"']
}

/// Appends the debug rendering of a string.
pub fn push_quoted(buf: &mut Vec<char>, s: &String)
    ensures
        final(buf)@ == old(buf)@ + quoted(s@),
{
    let cs = crate::text::chars_of(s.as_str());
    buf.push('"');
    let mut i: usize = 0;
    while i < cs.len()
        invariant
            i <= cs.len(),
            cs@ == s@,
            buf@ == old(buf)@ + seq!['"'] + escape_seq(cs@.subrange(0, i as int)),
        decreases cs.len() - i,
    {
        let c = cs[i];
        let ghost before = buf@;
        if c == '"' {
            buf.push('\\');
            buf.push('"');
        } else if c == '\\' {
            buf.push('\\');
            buf.push('\\');
        } else if c == '\n' {
            buf.push('\\');
            buf.push('n');
        } else if c == '\r' {
            buf.push('\\');
            buf.push('r');
        } else if c == '\t' {
            buf.push('\\');
            buf.push('t');
        } else if c == '\0' {
            buf.push('\\');
            buf.push('0');
        } else {
            buf.push(c);
        }
        assert(cs@.subrange(0, i + 1).drop_last() =~= cs@.subrange(0, i as int));
        assert(buf@ =~= before + escape_char(c));
        i = i + 1;
    }
    buf.push('"');
    assert(cs@.subrange(0, cs.len() as int) =~= cs@);
    assert(buf@ =~= old(buf)@ + quoted(s@));
}

/// The digits of a fraction without its trailing zeros.
pub open spec fn trim_zeros(d: Seq<u8>) -> Seq<u8>
    decreases d.len(),
{
    if d.len() > 0 && d.last() == 0 {
        trim_zeros(d.drop_last())
    } else {
        d
    }
}

pub open spec fn fraction_text(d: Seq<u8>) -> Seq<char>
    decreases d.len(),
{
    if d.len() == 0 {
        Seq::empty()
    } else {
        fraction_text(d.drop_last()).push(digit_char(d.last() as nat))
    }
}

/// A decimal literal written back as digits: the integer part, a point and
/// the fraction without trailing zeros; `"0"` stands after the point when
/// nothing else does when `keep_point` is set, and the point is left out
/// otherwise.
pub open spec fn decimal_text(whole: i64, frac: Seq<u8>, keep_point: bool) -> Seq<char> {
    let f = trim_zeros(frac);
    if f.len() == 0 {
        if keep_point {
            int_text(whole as int) + seq!['.', '0']
        } else {
            int_text(whole as int)
        }
    } else {
        int_text(whole as int) + seq!['.'] + fraction_text(f)
    }
}

/// Appends a decimal literal as `decimal_text` writes it.
pub fn push_decimal(buf: &mut Vec<char>, whole: i64, frac: &Vec<u8>, keep_point: bool)
    ensures
        final(buf)@ == old(buf)@ + decimal_text(whole, frac@, keep_point),
{
    let mut n = frac.len();
    assert(frac@.subrange(0, frac.len() as int) =~= frac@);
    while n > 0 && frac[n - 1] == 0
        invariant
            n <= frac.len(),
            trim_zeros(frac@.subrange(0, n as int)) == trim_zeros(frac@),
        decreases n,
    {
        assert(frac@.subrange(0, n as int).drop_last() =~= frac@.subrange(0, n - 1));
        n = n - 1;
    }
    proof {
        assert(frac@.subrange(0, frac.len() as int) =~= frac@);
    }
    push_i64(buf, whole);
    if n == 0 {
        if keep_point {
            buf.push('.');
            buf.push('0');
        }
        assert(buf@ =~= old(buf)@ + decimal_text(whole, frac@, keep_point));
    } else {
        buf.push('.');
        let ghost mid = buf@;
        let mut i: usize = 0;
        while i < n
            invariant
                i <= n <= frac.len(),
                buf@ == mid + fraction_text(frac@.subrange(0, i as int)),
            decreases n - i,
        {
            buf.push(digit_to_char(frac[i] as u64));
            assert(frac@.subrange(0, i + 1).drop_last() =~= frac@.subrange(0, i as int));
            i = i + 1;
        }
        assert(trim_zeros(frac@) == frac@.subrange(0, n as int));
        assert(buf@ =~= old(buf)@ + decimal_text(whole, frac@, keep_point));
    }
}

/// The name of a token variant as debug output writes it.
pub open spec fn tag_name(t: TokenTag) -> Seq<char> {
    match t {
        TokenTag::Kain => "Kain"@,
        TokenTag::Sar => "Sar"@,
        TokenTag::Sit => "Sit"@,
        TokenTag::DaTha => "DaTha"@,
        TokenTag::Hman => "Hman"@,
        TokenTag::Hmar => "Hmar"@,
        TokenTag::Bhala => "Bhala"@,
        TokenTag::Hlyin => "Hlyin"@,
        TokenTag::Mo => "Mo"@,
        TokenTag::Pat => "Pat"@,
        TokenTag::Htae => "Htae"@,
        TokenTag::Laung => "Laung"@,
        TokenTag::Baung => "Baung"@,
        TokenTag::Break => "Break"@,
        TokenTag::Continue => "Continue"@,
        TokenTag::Kyoe => "Kyoe"@,
        TokenTag::NautSone => "NautSone"@,
        TokenTag::SetSae => "SetSae"@,
        TokenTag::Loke => "Loke"@,
        TokenTag::Pyan => "Pyan"@,
        TokenTag::Pya => "Pya"@,
        TokenTag::Phat => "Phat"@,
        TokenTag::Su => "Su"@,
        TokenTag::Yu => "Yu"@,
        TokenTag::Twe => "Twe"@,
        TokenTag::Atote => "Atote"@,
        TokenTag::Pay => "Pay"@,
        TokenTag::Pone => "Pone"@,
        TokenTag::Nee => "Nee"@,
        TokenTag::Myat => "Myat"@,
        TokenTag::Amhar => "Amhar"@,
        TokenTag::Identifier => "Identifier"@,
        TokenTag::Number => "Number"@,
        TokenTag::FloatLiteral => "FloatLiteral"@,
        TokenTag::StringLiteral => "StringLiteral"@,
        TokenTag::Plus => "Plus"@,
        TokenTag::Minus => "Minus"@,
        TokenTag::Star => "Star"@,
        TokenTag::Slash => "Slash"@,
        TokenTag::Assign => "Assign"@,
        TokenTag::Equals => "Equals"@,
        TokenTag::NotEquals => "NotEquals"@,
        TokenTag::GreaterThan => "GreaterThan"@,
        TokenTag::LessThan => "LessThan"@,
        TokenTag::GreaterEquals => "GreaterEquals"@,
        TokenTag::LessEquals => "LessEquals"@,
        TokenTag::Dot => "Dot"@,
        TokenTag::LParen => "LParen"@,
        TokenTag::RParen => "RParen"@,
        TokenTag::LBrace => "LBrace"@,
        TokenTag::RBrace => "RBrace"@,
        TokenTag::LBracket => "LBracket"@,
        TokenTag::RBracket => "RBracket"@,
        TokenTag::Comma => "Comma"@,
        TokenTag::Semicolon => "Semicolon"@,
        TokenTag::Colon => "Colon"@,
        TokenTag::Arrow => "Arrow"@,
        TokenTag::Comment => "Comment"@,
        TokenTag::Eof => "Eof"@,
        TokenTag::Illegal => "Illegal"@,
    }
}

pub fn tag_name_str(t: TokenTag) -> (r: &'static str)
    ensures
        r@ == tag_name(t),
{
    match t {
        TokenTag::Kain => "Kain",
        TokenTag::Sar => "Sar",
        TokenTag::Sit => "Sit",
        TokenTag::DaTha => "DaTha",
        TokenTag::Hman => "Hman",
        TokenTag::Hmar => "Hmar",
        TokenTag::Bhala => "Bhala",
        TokenTag::Hlyin => "Hlyin",
        TokenTag::Mo => "Mo",
        TokenTag::Pat => "Pat",
        TokenTag::Htae => "Htae",
        TokenTag::Laung => "Laung",
        TokenTag::Baung => "Baung",
        TokenTag::Break => "Break",
        TokenTag::Continue => "Continue",
        TokenTag::Kyoe => "Kyoe",
        TokenTag::NautSone => "NautSone",
        TokenTag::SetSae => "SetSae",
        TokenTag::Loke => "Loke",
        TokenTag::Pyan => "Pyan",
        TokenTag::Pya => "Pya",
        TokenTag::Phat => "Phat",
        TokenTag::Su => "Su",
        TokenTag::Yu => "Yu",
        TokenTag::Twe => "Twe",
        TokenTag::Atote => "Atote",
        TokenTag::Pay => "Pay",
        TokenTag::Pone => "Pone",
        TokenTag::Nee => "Nee",
        TokenTag::Myat => "Myat",
        TokenTag::Amhar => "Amhar",
        TokenTag::Identifier => "Identifier",
        TokenTag::Number => "Number",
        TokenTag::FloatLiteral => "FloatLiteral",
        TokenTag::StringLiteral => "StringLiteral",
        TokenTag::Plus => "Plus",
        TokenTag::Minus => "Minus",
        TokenTag::Star => "Star",
        TokenTag::Slash => "Slash",
        TokenTag::Assign => "Assign",
        TokenTag::Equals => "Equals",
        TokenTag::NotEquals => "NotEquals",
        TokenTag::GreaterThan => "GreaterThan",
        TokenTag::LessThan => "LessThan",
        TokenTag::GreaterEquals => "GreaterEquals",
        TokenTag::LessEquals => "LessEquals",
        TokenTag::Dot => "Dot",
        TokenTag::LParen => "LParen",
        TokenTag::RParen => "RParen",
        TokenTag::LBrace => "LBrace",
        TokenTag::RBrace => "RBrace",
        TokenTag::LBracket => "LBracket",
        TokenTag::RBracket => "RBracket",
        TokenTag::Comma => "Comma",
        TokenTag::Semicolon => "Semicolon",
        TokenTag::Colon => "Colon",
        TokenTag::Arrow => "Arrow",
        TokenTag::Comment => "Comment",
        TokenTag::Eof => "Eof",
        TokenTag::Illegal => "Illegal",
    }
}

/// A token kind as debug output writes it, e.g. `Identifier("main")`.
pub open spec fn kind_debug(k: KindModel) -> Seq<char> {
    match k {
        KindModel::Plain(t) => tag_name(t),
        KindModel::Identifier(s) => "Identifier("@ + quoted(s) + ")"@,
        KindModel::Number(n) => "Number("@ + int_text(n as int) + ")"@,
        KindModel::FloatLiteral(w, f) => "FloatLiteral("@ + decimal_text(w, f, true) + ")"@,
        KindModel::StringLiteral(s) => "StringLiteral("@ + quoted(s) + ")"@,
        KindModel::Comment(s) => "Comment("@ + quoted(s) + ")"@,
    }
}

/// Appends the debug rendering of a token kind.
pub fn push_kind_debug(buf: &mut Vec<char>, k: &TokenKind)
    ensures
        final(buf)@ == old(buf)@ + kind_debug(k.model()),
{
    match k {
        TokenKind::Identifier(s) => {
            push_str(buf, "Identifier(");
            push_quoted(buf, s);
            push_str(buf, ")");
        },
        TokenKind::Number(n) => {
            push_str(buf, "Number(");
            push_i64(buf, *n);
            push_str(buf, ")");
        },
        TokenKind::FloatLiteral(d) => {
            push_str(buf, "FloatLiteral(");
            push_decimal(buf, d.whole, &d.fraction, true);
            push_str(buf, ")");
        },
        TokenKind::StringLiteral(s) => {
            push_str(buf, "StringLiteral(");
            push_quoted(buf, s);
            push_str(buf, ")");
        },
        TokenKind::Comment(s) => {
            push_str(buf, "Comment(");
            push_quoted(buf, s);
            push_str(buf, ")");
        },
        _ => {
            push_str(buf, tag_name_str(k.tag()));
        },
    }
    assert(final(buf)@ =~= old(buf)@ + kind_debug(k.model()));
}

} // verus!
