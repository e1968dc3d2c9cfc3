//! Source formatter: prints a parsed program back in canonical layout,
//! keeping comments and the digits numbers were written with.
use vstd::prelude::*;

use crate::ast::{BlockStatement, Expression, IfAlternative, Program, Span, Statement, Type};
use crate::render::{decimal_text, push_decimal};
use crate::text::{str_eq, push_chars, push_str, push_string, trim_quotes, trim_quotes_exec, trim_start_spec};
use crate::lexer::{digits_end, nth_token, token_matches, trim_start_chars, Lexer};
use crate::parser::{error_text, errs_model, Parser};
use crate::grammar::{parse_errors, parsed_statements};
use crate::text::{is_whitespace, is_whitespace_spec, is_ascii_digit, is_myanmar_digit};
use crate::token::{KindModel, Token, TokenKind, TokenTag};

verus! {

/// A comment found in the source: where it starts and its text after `//`.
#[derive(Debug, Clone)]
pub struct CommentInfo {
    pub line: usize,
    pub column: usize,
    pub inline: bool,
    pub text: String,
}

/// A number literal: its value and the digits it was written with.
#[derive(Debug, Clone)]
pub struct NumberInfo {
    pub value: i64,
    pub original: String,
}

pub const MAX_INLINE_WIDTH: usize = 80;

pub const COLLECTION_WRAP_THRESHOLD: usize = 3;

// ----------------------------------------------------------------------
// Plain-text helpers

/// Four spaces per indentation level.
pub open spec fn indent_text(level: nat) -> Seq<char>
    decreases level,
{
    if level == 0 {
        Seq::empty()
    } else {
        indent_text((level - 1) as nat) + seq![' ', ' ', ' ', ' ']
    }
}

pub fn push_indent(out: &mut Vec<char>, level: usize)
    ensures
        final(out)@ == old(out)@ + indent_text(level as nat),
{
    let mut i: usize = 0;
    while i < level
        invariant
            i <= level,
            out@ == old(out)@ + indent_text(i as nat),
        decreases level - i,
    {
        out.push(' ');
        out.push(' ');
        out.push(' ');
        out.push(' ');
        i = i + 1;
        assert(out@ =~= old(out)@ + indent_text(i as nat));
    }
}

/// `INDENT_UNIT` repeated `level` times.
pub fn indent_str(level: usize) -> (r: String)
    ensures
        r@ == indent_text(level as nat),
{
    let mut out: Vec<char> = Vec::new();
    push_indent(&mut out, level);
    assert(out@ =~= indent_text(level as nat));
    crate::text::string_of(out.as_slice())
}

/// One more indentation level (it stays at the largest level there is).
/// Each indentation level is four spaces: the indentation of `level`
/// levels is `4 * level` spaces and nothing else.
pub proof fn law_indentation(level: nat)
    ensures
        indent_text(level).len() == 4 * level,
        forall|i: int| 0 <= i < indent_text(level).len() ==> #[trigger] indent_text(level)[i] == ' ',
    decreases level,
{
    if level > 0 {
        law_indentation((level - 1) as nat);
        let prev = indent_text((level - 1) as nat);
        assert forall|i: int| 0 <= i < indent_text(level).len() implies #[trigger] indent_text(level)[i] == ' ' by {
            if i < prev.len() {
                assert(indent_text(level)[i] == prev[i]);
            }
        }
    }
}

pub open spec fn deeper(level: usize) -> usize {
    if level < usize::MAX {
        (level + 1) as usize
    } else {
        level
    }
}

fn deeper_exec(level: usize) -> (r: usize)
    ensures
        r == deeper(level),
{
    if level < usize::MAX {
        level + 1
    } else {
        level
    }
}

/// The number of bytes the UTF-8 encoding of a character takes.
pub open spec fn utf8_width(c: char) -> nat {
    if (c as u32) < 0x80 {
        1
    } else if (c as u32) < 0x800 {
        2
    } else if (c as u32) < 0x10000 {
        3
    } else {
        4
    }
}

/// The length in bytes of the UTF-8 encoding of a text (`str::len`).
pub open spec fn utf8_len(s: Seq<char>) -> nat
    decreases s.len(),
{
    if s.len() == 0 {
        0
    } else {
        utf8_len(s.drop_last()) + utf8_width(s.last())
    }
}

/// Whether the UTF-8 encoding of `v` takes at most `limit` bytes.
pub fn utf8_len_at_most(v: &Vec<char>, limit: usize) -> (r: bool)
    ensures
        r == (utf8_len(v@) <= limit),
{
    let mut total: usize = 0;
    let mut i: usize = 0;
    while i < v.len()
        invariant
            i <= v.len(),
            total == utf8_len(v@.subrange(0, i as int)),
            total <= limit,
        decreases v.len() - i,
    {
        let c = v[i];
        let w: usize = if (c as u32) < 0x80 {
            1
        } else if (c as u32) < 0x800 {
            2
        } else if (c as u32) < 0x10000 {
            3
        } else {
            4
        };
        assert(v@.subrange(0, i + 1).drop_last() =~= v@.subrange(0, i as int));
        if w > limit - total {
            proof {
                lemma_utf8_len_prefix_mono(v@, i + 1);
            }
            return false;
        }
        total = total + w;
        i = i + 1;
    }
    assert(v@.subrange(0, v.len() as int) =~= v@);
    true
}

proof fn lemma_utf8_len_prefix_mono(s: Seq<char>, k: int)
    requires
        0 <= k <= s.len(),
    ensures
        utf8_len(s.subrange(0, k)) <= utf8_len(s),
    decreases s.len() - k,
{
    if k < s.len() {
        lemma_utf8_len_prefix_mono(s, k + 1);
        assert(s.subrange(0, k + 1).drop_last() =~= s.subrange(0, k));
    } else {
        assert(s.subrange(0, k) =~= s);
    }
}

/// Items joined by a separator.
pub open spec fn join(items: Seq<Seq<char>>, sep: Seq<char>) -> Seq<char>
    decreases items.len(),
{
    if items.len() == 0 {
        Seq::empty()
    } else if items.len() == 1 {
        items[0]
    } else {
        join(items.drop_last(), sep) + sep + items.last()
    }
}

pub fn push_join(out: &mut Vec<char>, items: &Vec<Vec<char>>, sep: &str)
    ensures
        final(out)@ == old(out)@ + join(items_model(items@), sep@),
{
    let mut i: usize = 0;
    while i < items.len()
        invariant
            i <= items.len(),
            out@ == old(out)@ + join(items_model(items@).subrange(0, i as int), sep@),
        decreases items.len() - i,
    {
        let ghost before = out@;
        if i > 0 {
            push_str(out, sep);
        }
        push_chars(out, &items[i]);
        proof {
            let m = items_model(items@);
            assert(m.subrange(0, i + 1).drop_last() =~= m.subrange(0, i as int));
            if i == 0 {
                assert(join(m.subrange(0, 0), sep@) =~= Seq::<char>::empty());
            }
        }
        i = i + 1;
    }
    assert(items_model(items@).subrange(0, items.len() as int) =~= items_model(items@));
}

/// The contents of a list of character vectors.
pub open spec fn items_model(v: Seq<Vec<char>>) -> Seq<Seq<char>> {
    Seq::new(v.len(), |i: int| v[i]@)
}

/// The lines of a wrapped collection for its first `k` items: each on its own
/// line, one level deeper, with a comma after every item but the last one.
pub open spec fn wrapped_lines(items: Seq<Seq<char>>, k: nat, indent: usize) -> Seq<char>
    decreases k,
{
    if k == 0 {
        Seq::empty()
    } else {
        let idx = (k - 1) as int;
        wrapped_lines(items, (k - 1) as nat, indent) + indent_text(deeper(indent) as nat)
            + items[idx] + (if idx + 1 < items.len() {
            seq![',']
        } else {
            Seq::empty()
        }) + seq!['\n']
    }
}

/// A bracketed list: on one line when it is short (at most 80 bytes and 3
/// items), one item per line otherwise.
pub open spec fn delimited_text(
    opener: char,
    closer: char,
    items: Seq<Seq<char>>,
    indent: usize,
) -> Seq<char> {
    if items.len() == 0 {
        seq![opener, closer]
    } else {
        let inline = seq![opener] + join(items, seq![',', ' ']) + seq![closer];
        if utf8_len(inline) <= 80 && items.len() <= 3 {
            inline
        } else {
            seq![opener, '\n'] + wrapped_lines(items, items.len(), indent) + indent_text(
                indent as nat,
            ) + seq![closer]
        }
    }
}

pub fn push_delimited(
    out: &mut Vec<char>,
    opener: char,
    closer: char,
    items: &Vec<Vec<char>>,
    indent: usize,
)
    ensures
        final(out)@ == old(out)@ + delimited_text(opener, closer, items_model(items@), indent),
{
    let ghost m = items_model(items@);
    if items.len() == 0 {
        out.push(opener);
        out.push(closer);
        assert(out@ =~= old(out)@ + delimited_text(opener, closer, m, indent));
        return;
    }
    let mut inline: Vec<char> = Vec::new();
    inline.push(opener);
    push_join(&mut inline, items, ", ");
    inline.push(closer);
    assert(", "@ =~= seq![',', ' ']) by {
        reveal_strlit(", ");
    }
    assert(inline@ =~= seq![opener] + join(m, seq![',', ' ']) + seq![closer]);
    if utf8_len_at_most(&inline, MAX_INLINE_WIDTH) && items.len() <= COLLECTION_WRAP_THRESHOLD {
        push_chars(out, &inline);
        return;
    }
    out.push(opener);
    out.push('\n');
    let ghost mid = out@;
    let mut idx: usize = 0;
    while idx < items.len()
        invariant
            idx <= items.len(),
            m == items_model(items@),
            out@ == mid + wrapped_lines(m, idx as nat, indent),
        decreases items.len() - idx,
    {
        push_indent(out, deeper_exec(indent));
        push_chars(out, &items[idx]);
        if idx + 1 < items.len() {
            out.push(',');
        }
        out.push('\n');
        idx = idx + 1;
        assert(out@ =~= mid + wrapped_lines(m, idx as nat, indent));
    }
    push_indent(out, indent);
    out.push(closer);
    assert(out@ =~= old(out)@ + delimited_text(opener, closer, m, indent));
}

// ----------------------------------------------------------------------
// Numbers

pub open spec fn myanmar_digit(d: nat) -> char {
    if d == 0 {
        '\u{1040}'
    } else if d == 1 {
        '\u{1041}'
    } else if d == 2 {
        '\u{1042}'
    } else if d == 3 {
        '\u{1043}'
    } else if d == 4 {
        '\u{1044}'
    } else if d == 5 {
        '\u{1045}'
    } else if d == 6 {
        '\u{1046}'
    } else if d == 7 {
        '\u{1047}'
    } else if d == 8 {
        '\u{1048}'
    } else {
        '\u{1049}'
    }
}

pub open spec fn myanmar_digits(n: nat) -> Seq<char>
    decreases n,
{
    if n < 10 {
        seq![myanmar_digit(n)]
    } else {
        myanmar_digits(n / 10).push(myanmar_digit(n % 10))
    }
}

/// An integer written with Myanmar digits, `-` in front when negative.
pub open spec fn myanmar_numeral(n: int) -> Seq<char> {
    if n < 0 {
        seq!['-'] + myanmar_digits((-n) as nat)
    } else {
        myanmar_digits(n as nat)
    }
}

fn myanmar_digit_exec(d: u64) -> (c: char)
    ensures
        c == myanmar_digit(d as nat),
{
    if d == 0 {
        '\u{1040}'
    } else if d == 1 {
        '\u{1041}'
    } else if d == 2 {
        '\u{1042}'
    } else if d == 3 {
        '\u{1043}'
    } else if d == 4 {
        '\u{1044}'
    } else if d == 5 {
        '\u{1045}'
    } else if d == 6 {
        '\u{1046}'
    } else if d == 7 {
        '\u{1047}'
    } else if d == 8 {
        '\u{1048}'
    } else {
        '\u{1049}'
    }
}

fn push_myanmar_digits(out: &mut Vec<char>, n: u64)
    ensures
        final(out)@ == old(out)@ + myanmar_digits(n as nat),
    decreases n,
{
    if n >= 10 {
        push_myanmar_digits(out, n / 10);
    }
    out.push(myanmar_digit_exec(n % 10));
    assert(final(out)@ =~= old(out)@ + myanmar_digits(n as nat));
}

/// An integer in Myanmar numerals, e.g. `၁၂၃`.
pub fn to_myanmar_numeral(n: i64) -> (r: Vec<char>)
    ensures
        r@ == myanmar_numeral(n as int),
{
    let mut out: Vec<char> = Vec::new();
    if n < 0 {
        out.push('-');
        let m: i128 = -(n as i128);
        push_myanmar_digits(&mut out, m as u64);
    } else {
        push_myanmar_digits(&mut out, n as u64);
    }
    assert(out@ =~= myanmar_numeral(n as int));
    out
}

/// The text of the next number literal with value `v`, starting the search
/// at `idx`: the first recorded number with that value gives its original
/// digits (Myanmar numerals when it has none) and the search moves past it;
/// when none is left, Myanmar numerals and the end of the list.
pub open spec fn next_number_text(nums: Seq<(i64, Seq<char>)>, idx: nat, v: i64) -> (Seq<char>, nat)
    decreases nums.len() - idx,
{
    if idx >= nums.len() {
        (myanmar_numeral(v as int), idx)
    } else if nums[idx as int].0 == v {
        if nums[idx as int].1.len() > 0 {
            (nums[idx as int].1, idx + 1)
        } else {
            (myanmar_numeral(v as int), idx + 1)
        }
    } else {
        next_number_text(nums, idx + 1, v)
    }
}

/// The numbers of the source and how far the printer has used them.
pub struct FormatContext {
    pub numbers: Vec<NumberInfo>,
    pub number_index: usize,
}

/// Each number's value and original digits.
pub open spec fn number_models(v: Seq<NumberInfo>) -> Seq<(i64, Seq<char>)> {
    Seq::new(v.len(), |i: int| (v[i].value, v[i].original@))
}

impl FormatContext {
    /// The numbers as values and digit texts.
    pub open spec fn nums(&self) -> Seq<(i64, Seq<char>)> {
        number_models(self.numbers@)
    }

    /// Appends the original text of the next number literal with this value.
    pub fn next_number(&mut self, out: &mut Vec<char>, value: i64)
        requires
            old(self).number_index <= old(self).numbers.len(),
        ensures
            final(self).numbers@ == old(self).numbers@,
            final(self).number_index <= final(self).numbers.len(),
            final(out)@ == old(out)@ + next_number_text(
                old(self).nums(),
                old(self).number_index as nat,
                value,
            ).0,
            final(self).number_index == next_number_text(
                old(self).nums(),
                old(self).number_index as nat,
                value,
            ).1,
    {
        while self.number_index < self.numbers.len()
            invariant
                self.numbers@ == old(self).numbers@,
                self.number_index <= self.numbers.len(),
                out@ == old(out)@,
                next_number_text(self.nums(), self.number_index as nat, value)
                    == next_number_text(old(self).nums(), old(self).number_index as nat, value),
            decreases self.numbers.len() - self.number_index,
        {
            let i = self.number_index;
            if self.numbers[i].value == value {
                self.number_index = i + 1;
                let orig = crate::text::chars_of(self.numbers[i].original.as_str());
                if orig.len() > 0 {
                    push_chars(out, &orig);
                } else {
                    let m = to_myanmar_numeral(value);
                    push_chars(out, &m);
                }
                return;
            }
            self.number_index = i + 1;
        }
        let m = to_myanmar_numeral(value);
        push_chars(out, &m);
    }
}

// ----------------------------------------------------------------------
// Types

/// A type as it is written in source.
pub open spec fn type_text(t: Type) -> Seq<char>
    decreases t, 1nat,
{
    match t {
        Type::Kain => "kain"@,
        Type::Sar => "sar"@,
        Type::Sit => "sit"@,
        Type::DaTha => "da_tha"@,
        Type::Baung => "baung"@,
        Type::Nil => "bhala"@,
        Type::Error => "amhar"@,
        Type::Array(inner) => "su<"@ + type_text(*inner) + seq!['>'],
        Type::Channel(inner) => "laung<"@ + type_text(*inner) + seq!['>'],
        Type::HashMap(k, v) => "twe<"@ + type_text(*k) + seq![',', ' '] + type_text(*v) + seq![
            '>',
        ],
        Type::Struct(name) => name@,
        Type::Interface(name) => name@,
        Type::Tuple(ts) => seq!['('] + join(types_text(ts@), seq![',', ' ']) + seq![')'],
        Type::Function { params, return_type } => "loke("@ + join(
            types_text(params@),
            seq![',', ' '],
        ) + ") -> "@ + type_text(*return_type),
    }
}

pub open spec fn types_text(ts: Seq<Type>) -> Seq<Seq<char>>
    decreases ts, 0nat,
{
    if ts.len() == 0 {
        Seq::empty()
    } else {
        seq![type_text(ts[0])] + types_text(ts.drop_first())
    }
}

proof fn lemma_types_text_len(ts: Seq<Type>)
    ensures
        types_text(ts).len() == ts.len(),
        forall|i: int| 0 <= i < ts.len() ==> #[trigger] types_text(ts)[i] == type_text(ts[i]),
    decreases ts.len(),
{
    if ts.len() > 0 {
        lemma_types_text_len(ts.drop_first());
        assert forall|i: int| 0 <= i < ts.len() implies #[trigger] types_text(ts)[i] == type_text(
            ts[i],
        ) by {
            if i > 0 {
                assert(ts.drop_first()[i - 1] == ts[i]);
            }
        }
    }
}

fn types_items(ts: &Vec<Type>) -> (r: Vec<Vec<char>>)
    ensures
        items_model(r@) == types_text(ts@),
    decreases ts@, 0nat,
{
    let mut out: Vec<Vec<char>> = Vec::new();
    let mut i: usize = 0;
    while i < ts.len()
        invariant
            i <= ts.len(),
            out.len() == i,
            forall|k: int| 0 <= k < i ==> (#[trigger] out@[k])@ == type_text(ts@[k]),
        decreases ts.len() - i,
    {
        let mut b: Vec<char> = Vec::new();
        push_type(&mut b, &ts[i]);
        out.push(b);
        i = i + 1;
    }
    proof {
        lemma_types_text_len(ts@);
        assert(items_model(out@) =~= types_text(ts@));
    }
    out
}

pub fn push_type(out: &mut Vec<char>, t: &Type)
    ensures
        final(out)@ == old(out)@ + type_text(*t),
    decreases t, 1nat,
{
    match t {
        Type::Kain => push_str(out, "kain"),
        Type::Sar => push_str(out, "sar"),
        Type::Sit => push_str(out, "sit"),
        Type::DaTha => push_str(out, "da_tha"),
        Type::Baung => push_str(out, "baung"),
        Type::Nil => push_str(out, "bhala"),
        Type::Error => push_str(out, "amhar"),
        Type::Array(inner) => {
            push_str(out, "su<");
            push_type(out, inner);
            out.push('>');
        },
        Type::Channel(inner) => {
            push_str(out, "laung<");
            push_type(out, inner);
            out.push('>');
        },
        Type::HashMap(k, v) => {
            push_str(out, "twe<");
            push_type(out, k);
            out.push(',');
            out.push(' ');
            push_type(out, v);
            out.push('>');
        },
        Type::Struct(name) => push_string(out, name),
        Type::Interface(name) => push_string(out, name),
        Type::Tuple(ts) => {
            let items = types_items(ts);
            out.push('(');
            push_join(out, &items, ", ");
            out.push(')');
            assert(", "@ =~= seq![',', ' ']) by {
                reveal_strlit(", ");
            }
        },
        Type::Function { params, return_type } => {
            let items = types_items(params);
            push_str(out, "loke(");
            push_join(out, &items, ", ");
            push_str(out, ") -> ");
            push_type(out, return_type);
            assert(", "@ =~= seq![',', ' ']) by {
                reveal_strlit(", ");
            }
        },
    }
    assert(final(out)@ =~= old(out)@ + type_text(*t));
}

/// A type as source text.
pub fn format_type(t: &Type) -> (r: String)
    ensures
        r@ == type_text(*t),
{
    let mut out: Vec<char> = Vec::new();
    push_type(&mut out, t);
    assert(out@ =~= type_text(*t));
    crate::text::string_of(out.as_slice())
}


// ----------------------------------------------------------------------
// Expressions

/// Binding power and left associativity of a binary operator.
pub open spec fn op_precedence(op: Seq<char>) -> (u8, bool) {
    if op == "=="@ || op == "!="@ {
        (2, false)
    } else if op == "<"@ || op == ">"@ || op == "<="@ || op == ">="@ {
        (3, false)
    } else if op == "+"@ || op == "-"@ {
        (4, true)
    } else if op == "*"@ || op == "/"@ {
        (5, true)
    } else {
        (1, false)
    }
}

/// The formatter ranks every infix operator as the parser binds it, so a
/// child that binds more loosely than its parent is the one that gets
/// parentheses: for each operator token, the level the formatter gives the
/// operator's text is the parser's binding power of that token.
pub proof fn law_format_precedence_is_parser_precedence(t: TokenTag)
    ensures
        crate::parser::is_infix_operator(t) ==> op_precedence(crate::parser::operator_text(t)).0
            == crate::parser::precedence_of(t),
{
    crate::parser::lemma_operator_texts_distinct();
}

pub fn operator_precedence(op: &String) -> (r: (u8, bool))
    ensures
        r == op_precedence(op@),
{
    let s = op.as_str();
    if crate::text::str_eq(s, "==") || crate::text::str_eq(s, "!=") {
        (2, false)
    } else if crate::text::str_eq(s, "<") || crate::text::str_eq(s, ">") || crate::text::str_eq(
        s,
        "<=",
    ) || crate::text::str_eq(s, ">=") {
        (3, false)
    } else if crate::text::str_eq(s, "+") || crate::text::str_eq(s, "-") {
        (4, true)
    } else if crate::text::str_eq(s, "*") || crate::text::str_eq(s, "/") {
        (5, true)
    } else {
        (1, false)
    }
}

pub open spec fn expression_precedence(e: Expression) -> u8 {
    match e {
        Expression::Binary { operator, .. } => op_precedence(operator@).0,
        _ => 10,
    }
}

/// Whether a right operand at the parent's own level may go without
/// parentheses: only under `+` or `*` with the same operator, where
/// regrouping keeps the value.
pub open spec fn regroups_freely(child: Expression, parent_op: Seq<char>) -> bool {
    match child {
        Expression::Binary { operator, .. } => operator@ == parent_op && (parent_op == "+"@ || parent_op
            == "*"@),
        _ => false,
    }
}

/// Whether a child of a binary expression must be parenthesized: a child
/// that binds more loosely always, and a right child at the same level
/// unless regrouping it keeps the value.
pub open spec fn needs_parentheses(
    child: Expression,
    parent_prec: u8,
    parent_op: Seq<char>,
    is_right: bool,
) -> bool {
    let cp = expression_precedence(child);
    cp < parent_prec || (cp == parent_prec && is_right && !regroups_freely(child, parent_op))
}

/// A child that binds more loosely than its parent operator is always
/// parenthesized, one that binds more tightly never is, a left child at the
/// parent's own level never is (the operators group to the left), and a
/// right child at that level keeps its parentheses under `-`, `/` and every
/// comparison.
pub proof fn law_parentheses(child: Expression, parent_prec: u8, parent_op: Seq<char>, is_right: bool)
    ensures
        expression_precedence(child) < parent_prec ==> needs_parentheses(child, parent_prec, parent_op, is_right),
        expression_precedence(child) > parent_prec ==> !needs_parentheses(child, parent_prec, parent_op, is_right),
        expression_precedence(child) == parent_prec && !is_right ==> !needs_parentheses(
            child,
            parent_prec,
            parent_op,
            is_right,
        ),
        expression_precedence(child) == parent_prec && is_right && (parent_op == "-"@ || parent_op == "/"@
            || parent_op == "<"@ || parent_op == ">"@ || parent_op == "<="@ || parent_op == ">="@ || parent_op
            == "=="@ || parent_op == "!="@) ==> needs_parentheses(child, parent_prec, parent_op, is_right),
{
    crate::parser::lemma_operator_texts_distinct();
}

fn needs_parentheses_exec(child: &Expression, parent_prec: u8, parent_op: &String, is_right: bool) -> (r:
    bool)
    ensures
        r == needs_parentheses(*child, parent_prec, parent_op@, is_right),
{
    let cp = match child {
        Expression::Binary { operator, .. } => operator_precedence(operator).0,
        _ => 10,
    };
    if cp < parent_prec {
        return true;
    }
    if cp > parent_prec || !is_right {
        return false;
    }
    let free = match child {
        Expression::Binary { operator, .. } => str_eq(operator.as_str(), parent_op.as_str()) && (str_eq(
            parent_op.as_str(),
            "+",
        ) || str_eq(parent_op.as_str(), "*")),
        _ => false,
    };
    !free
}

pub open spec fn paren(s: Seq<char>, wrap: bool) -> Seq<char> {
    if wrap {
        seq!['('] + s + seq![')']
    } else {
        s
    }
}

/// `type name` items of a parameter list.
pub open spec fn param_items(ps: Seq<(String, Type, Span)>) -> Seq<Seq<char>> {
    Seq::new(ps.len(), |i: int| type_text(ps[i].1) + seq![' '] + ps[i].0@)
}

pub open spec fn field_items(ps: Seq<(String, Type)>) -> Seq<Seq<char>> {
    Seq::new(ps.len(), |i: int| type_text(ps[i].1) + seq![' '] + ps[i].0@)
}

/// A parameter list: `()` when empty, a bracketed list otherwise.
pub open spec fn params_text(ps: Seq<(String, Type, Span)>, indent: usize) -> Seq<char> {
    if ps.len() == 0 {
        seq!['(', ')']
    } else {
        delimited_text('(', ')', param_items(ps), indent)
    }
}

/// An expression as source text, with the number list position after it.
pub open spec fn expr_text(e: Expression, indent: usize, nums: Seq<(i64, Seq<char>)>, idx: nat) -> (
    Seq<char>,
    nat,
)
    decreases e, 3nat,
{
    match e {
        Expression::IntegerLiteral(v) => next_number_text(nums, idx, v),
        Expression::FloatLiteral(d) => (decimal_text(d.whole, d.fraction@, false), idx),
        Expression::StringLiteral(v) => (seq!['"'] + v@ + seq!['"'], idx),
        Expression::BooleanLiteral(b) => (
            if b {
                "hman"@
            } else {
                "hmar"@
            },
            idx,
        ),
        Expression::NilLiteral => ("bhala"@, idx),
        Expression::Identifier(n) => (n@, idx),
        Expression::Binary { left, operator, right } => {
            let (prec, la) = op_precedence(operator@);
            let (l, i1) = expr_text(*left, indent, nums, idx);
            let (r, i2) = expr_text(*right, indent, nums, i1);
            (
                paren(l, needs_parentheses(*left, prec, operator@, false)) + seq![' '] + operator@ + seq![
                    ' ',
                ] + paren(r, needs_parentheses(*right, prec, operator@, true)),
                i2,
            )
        },
        Expression::FunctionCall { function, arguments } => {
            let (items, i1) = exprs_items(arguments@, deeper(indent), nums, idx);
            (function@ + delimited_text('(', ')', items, indent), i1)
        },
        Expression::ArrayLiteral { elements } => {
            let (items, i1) = exprs_items(elements@, deeper(indent), nums, idx);
            (delimited_text('[', ']', items, indent), i1)
        },
        Expression::HashLiteral { pairs } => {
            let (items, i1) = pairs_items(pairs@, deeper(indent), nums, idx);
            (delimited_text('{', '}', items, indent), i1)
        },
        Expression::IndexExpression { left, index } => {
            let (l, i1) = expr_text(*left, indent, nums, idx);
            let (i, i2) = expr_text(*index, indent, nums, i1);
            (l + seq!['['] + i + seq![']'], i2)
        },
        Expression::ReadInput { prompt } => {
            let (p, i1) = expr_text(*prompt, indent, nums, idx);
            ("phat("@ + p + seq![')'], i1)
        },
        Expression::SliceExpression { left, low, high } => {
            let (o, i1) = expr_text(*left, indent, nums, idx);
            let (l, i2) = match low {
                Some(b) => expr_text(*b, indent, nums, i1),
                None => (Seq::empty(), i1),
            };
            let (h, i3) = match high {
                Some(b) => expr_text(*b, indent, nums, i2),
                None => (Seq::empty(), i2),
            };
            (o + seq!['['] + l + seq![':'] + h + seq![']'], i3)
        },
        Expression::TypeConversion { target_type, argument } => {
            let (a, i1) = expr_text(*argument, indent, nums, idx);
            ("pyaung_"@ + type_text(target_type) + seq!['('] + a + seq![')'], i1)
        },
        Expression::MethodCall { object, method, arguments } => {
            let (o, i1) = expr_text(*object, indent, nums, idx);
            let (items, i2) = exprs_items(arguments@, indent, nums, i1);
            (o + seq!['.'] + method@ + seq!['('] + join(items, seq![',', ' ']) + seq![')'], i2)
        },
        Expression::FieldAccess { object, field } => {
            let (o, i1) = expr_text(*object, indent, nums, idx);
            (o + seq!['.'] + field@, i1)
        },
        Expression::StructLiteral { name, fields } => {
            let (items, i1) = named_items(fields@, indent, nums, idx);
            (name@ + seq![' ', '{', ' '] + join(items, seq![',', ' ']) + seq![' ', '}'], i1)
        },
        Expression::ClosureLiteral { parameters, return_type, body } => {
            let (b, i1) = block_text(body, deeper(indent), nums, idx);
            (
                "loke"@ + params_text(parameters@, indent) + (match return_type {
                    Type::Nil => Seq::empty(),
                    _ => " -> "@ + type_text(return_type),
                }) + seq![' ', '{', '\n'] + b + indent_text(indent as nat) + seq!['}'],
                i1,
            )
        },
        Expression::ErrorCreate { message } => {
            let (m, i1) = expr_text(*message, indent, nums, idx);
            ("amhar("@ + m + seq![')'], i1)
        },
        Expression::TupleLiteral { elements } => {
            let (items, i1) = exprs_items(elements@, indent, nums, idx);
            (seq!['('] + join(items, seq![',', ' ']) + seq![')'], i1)
        },
        Expression::ChannelMake { value_type, capacity } => {
            let (c, i1) = match capacity {
                Some(b) => expr_text(*b, indent, nums, idx),
                None => (Seq::empty(), idx),
            };
            ("laung<"@ + type_text(*value_type) + seq!['>', '('] + c + seq![')'], i1)
        },
        Expression::BaungCreate { timeout_ms } => {
            let (t, i1) = expr_text(*timeout_ms, indent, nums, idx);
            ("baung("@ + t + seq![')'], i1)
        },
    }
}

/// The texts of a list of expressions, formatted left to right.
pub open spec fn exprs_items(es: Seq<Expression>, indent: usize, nums: Seq<(i64, Seq<char>)>, idx: nat) -> (
    Seq<Seq<char>>,
    nat,
)
    decreases es, 0nat,
{
    if es.len() == 0 {
        (Seq::empty(), idx)
    } else {
        let (first, i1) = expr_text(es[0], indent, nums, idx);
        let (rest, i2) = exprs_items(es.drop_first(), indent, nums, i1);
        (seq![first] + rest, i2)
    }
}

/// `key: value` texts of the pairs of a map literal.
pub open spec fn pairs_items(
    ps: Seq<(Expression, Expression)>,
    indent: usize,
    nums: Seq<(i64, Seq<char>)>,
    idx: nat,
) -> (Seq<Seq<char>>, nat)
    decreases ps, 0nat,
{
    if ps.len() == 0 {
        (Seq::empty(), idx)
    } else {
        let (k, i1) = expr_text(ps[0].0, indent, nums, idx);
        let (v, i2) = expr_text(ps[0].1, indent, nums, i1);
        let (rest, i3) = pairs_items(ps.drop_first(), indent, nums, i2);
        (seq![k + seq![':', ' '] + v] + rest, i3)
    }
}

/// `name: value` texts of the fields of a struct literal.
pub open spec fn named_items(
    fs: Seq<(String, Expression)>,
    indent: usize,
    nums: Seq<(i64, Seq<char>)>,
    idx: nat,
) -> (Seq<Seq<char>>, nat)
    decreases fs, 0nat,
{
    if fs.len() == 0 {
        (Seq::empty(), idx)
    } else {
        let (v, i1) = expr_text(fs[0].1, indent, nums, idx);
        let (rest, i2) = named_items(fs.drop_first(), indent, nums, i1);
        (seq![fs[0].0@ + seq![':', ' '] + v] + rest, i2)
    }
}

// ----------------------------------------------------------------------
// Statements

/// Statements that get a blank line before and after them.
pub open spec fn is_block_like(s: Statement) -> bool {
    match s {
        Statement::If { .. } | Statement::While { .. } | Statement::ForIn { .. }
        | Statement::FunctionDecl { .. } | Statement::StructDecl { .. }
        | Statement::MethodDecl { .. } | Statement::InterfaceDecl { .. } => true,
        _ => false,
    }
}

pub fn statement_is_block_like(s: &Statement) -> (r: bool)
    ensures
        r == is_block_like(*s),
{
    match s {
        Statement::If { .. } | Statement::While { .. } | Statement::ForIn { .. }
        | Statement::FunctionDecl { .. } | Statement::StructDecl { .. }
        | Statement::MethodDecl { .. } | Statement::InterfaceDecl { .. } => true,
        _ => false,
    }
}

/// The statements of a block, one per line, with a blank line around
/// block-like statements; `prev` tells whether the statement before the
/// first one (if any) was block-like.
pub open spec fn stmts_text(
    ss: Seq<Statement>,
    prev: Option<bool>,
    indent: usize,
    nums: Seq<(i64, Seq<char>)>,
    idx: nat,
) -> (Seq<char>, nat)
    decreases ss, 0nat,
{
    if ss.len() == 0 {
        (Seq::empty(), idx)
    } else {
        let sep: Seq<char> = match prev {
            Some(pb) => if pb || is_block_like(ss[0]) {
                seq!['\n']
            } else {
                Seq::empty()
            },
            None => Seq::empty(),
        };
        let (first, i1) = stmt_text(ss[0], indent, nums, idx);
        let (rest, i2) = stmts_text(ss.drop_first(), Some(is_block_like(ss[0])), indent, nums, i1);
        (sep + first + seq!['\n'] + rest, i2)
    }
}

pub open spec fn block_text(b: BlockStatement, indent: usize, nums: Seq<(i64, Seq<char>)>, idx: nat) -> (
    Seq<char>,
    nat,
)
    decreases b, 1nat,
{
    stmts_text(b.statements@, None, indent, nums, idx)
}

/// The header clause of a classic for loop (`kain i = 0`, `i = i + 1`).
pub open spec fn clause_text(s: Statement, indent: usize, nums: Seq<(i64, Seq<char>)>, idx: nat) -> (
    Seq<char>,
    nat,
)
    decreases s, 2nat,
{
    match s {
        Statement::Let { name, value, ty, .. } => {
            let (v, i1) = expr_text(value, indent, nums, idx);
            (type_text(ty) + seq![' '] + name@ + seq![' ', '=', ' '] + v, i1)
        },
        Statement::Assign { name, value, .. } => {
            let (v, i1) = expr_text(value, indent, nums, idx);
            (name@ + seq![' ', '=', ' '] + v, i1)
        },
        Statement::ExpressionStatement(e) => expr_text(e, indent, nums, idx),
        _ => stmt_text(s, indent, nums, idx),
    }
}

/// A clause that may be left out of a for loop header.
#[verifier::opaque]
pub open spec fn opt_clause_text(
    o: Option<Box<Statement>>,
    indent: usize,
    nums: Seq<(i64, Seq<char>)>,
    idx: nat,
) -> (Seq<char>, nat)
    decreases o, 0nat,
{
    match o {
        Some(st) => clause_text(*st, indent, nums, idx),
        None => (Seq::empty(), idx),
    }
}

/// An expression that may be left out (empty text).
pub open spec fn opt_expr_text(o: Option<Expression>, indent: usize, nums: Seq<(i64, Seq<char>)>, idx: nat) -> (
    Seq<char>,
    nat,
)
    decreases o, 0nat,
{
    match o {
        Some(e) => expr_text(e, indent, nums, idx),
        None => (Seq::empty(), idx),
    }
}

/// The `} mo ...` part of an if statement.
pub open spec fn alternative_text(
    alt: Option<IfAlternative>,
    indent: usize,
    nums: Seq<(i64, Seq<char>)>,
    idx: nat,
) -> (Seq<char>, nat)
    decreases alt, 0nat,
{
    let ind = indent_text(indent as nat);
    match alt {
        Some(IfAlternative::Else(block)) => {
            let (b, i1) = block_text(block, deeper(indent), nums, idx);
            (ind + "} mo {\n"@ + b + ind + seq!['}'], i1)
        },
        Some(IfAlternative::ElseIf(inner)) => {
            let (e, i1) = stmt_text(*inner, indent, nums, idx);
            (ind + "} mo "@ + trim_start_spec(e), i1)
        },
        None => (ind + seq!['}'], idx),
    }
}

/// A statement as source text (without its line break).
pub open spec fn stmt_text(s: Statement, indent: usize, nums: Seq<(i64, Seq<char>)>, idx: nat) -> (
    Seq<char>,
    nat,
)
    decreases s, 1nat,
{
    let ind = indent_text(indent as nat);
    match s {
        Statement::Let { name, value, ty, .. } => {
            let (v, i1) = expr_text(value, indent, nums, idx);
            (ind + type_text(ty) + seq![' '] + name@ + seq![' ', '=', ' '] + v + seq![';'], i1)
        },
        Statement::LetDestructured { names, value } => {
            let (v, i1) = expr_text(value, indent, nums, idx);
            (ind + join(param_items(names@), seq![',', ' ']) + seq![' ', '=', ' '] + v + seq![';'], i1)
        },
        Statement::Assign { name, value, .. } => {
            let (v, i1) = expr_text(value, indent, nums, idx);
            (ind + name@ + seq![' ', '=', ' '] + v + seq![';'], i1)
        },
        Statement::FieldAssign { object, field, value, .. } => {
            let (v, i1) = expr_text(value, indent, nums, idx);
            (ind + object@ + seq!['.'] + field@ + seq![' ', '=', ' '] + v + seq![';'], i1)
        },
        Statement::IndexAssign { object, index, value, .. } => {
            let (o, i1) = expr_text(object, indent, nums, idx);
            let (i, i2) = expr_text(index, indent, nums, i1);
            let (v, i3) = expr_text(value, indent, nums, i2);
            (ind + o + seq!['['] + i + seq![']', ' ', '=', ' '] + v + seq![';'], i3)
        },
        Statement::If { condition, consequence, alternative } => {
            let (c, i1) = expr_text(condition, indent, nums, idx);
            let (b, i2) = block_text(consequence, deeper(indent), nums, i1);
            let (a, i3) = alternative_text(alternative, indent, nums, i2);
            (ind + "hlyin ("@ + c + ") {\n"@ + b + a, i3)
        },
        Statement::While { condition, body } => {
            let (c, i1) = expr_text(condition, indent, nums, idx);
            let (b, i2) = block_text(body, deeper(indent), nums, i1);
            (ind + "pat ("@ + c + ") {\n"@ + b + ind + seq!['}'], i2)
        },
        Statement::Break => (ind + "yut;"@, idx),
        Statement::Continue => (ind + "shar;"@, idx),
        Statement::ForIn { index, iterator, collection, body, .. } => {
            let (c, i1) = expr_text(collection, indent, nums, idx);
            let header = match index {
                Some(ix) => ind + "pat ("@ + ix@ + seq![',', ' '] + iterator@ + ") htae "@ + c
                    + seq![' ', '{', '\n'],
                None => ind + "pat "@ + iterator@ + " htae "@ + c + seq![' ', '{', '\n'],
            };
            let (b, i2) = block_text(body, deeper(indent), nums, i1);
            (header + b + ind + seq!['}'], i2)
        },
        Statement::FunctionDecl { name, parameters, return_type, body, .. } => {
            let (b, i1) = block_text(body, deeper(indent), nums, idx);
            (
                ind + "loke "@ + name@ + params_text(parameters@, indent) + " -> "@ + type_text(
                    return_type,
                ) + seq![' ', '{', '\n'] + b + ind + seq!['}'],
                i1,
            )
        },
        Statement::Return { value } => match value {
            Expression::TupleLiteral { elements } => {
                let (items, i1) = exprs_items(elements@, indent, nums, idx);
                (ind + "pyan ("@ + join(items, seq![',', ' ']) + seq![')', ';'], i1)
            },
            _ => {
                let (v, i1) = expr_text(value, indent, nums, idx);
                (ind + "pyan "@ + v + seq![';'], i1)
            },
        },
        Statement::Print { value } => {
            let (v, i1) = expr_text(value, indent, nums, idx);
            (ind + "pya("@ + v + seq![')', ';'], i1)
        },
        Statement::Import { module, .. } => (
            ind + "yu \""@ + trim_quotes(module@) + seq!['"', ';'],
            idx,
        ),
        Statement::ExpressionStatement(e) => {
            let (v, i1) = expr_text(e, indent, nums, idx);
            (ind + v + seq![';'], i1)
        },
        Statement::StructDecl { name, fields, .. } => (
            ind + "pone "@ + name@ + seq![' ', '{', '\n'] + field_lines(
                fields@,
                deeper(indent),
            ) + ind + seq!['}'],
            idx,
        ),
        Statement::MethodDecl {
            receiver_type,
            receiver_name,
            name,
            parameters,
            return_type,
            body,
            ..
        } => {
            let (b, i1) = block_text(body, deeper(indent), nums, idx);
            (
                ind + "nee ("@ + receiver_type@ + seq![' '] + receiver_name@ + seq![')', ' ']
                    + name@ + params_text(parameters@, indent) + " -> "@ + type_text(return_type)
                    + seq![' ', '{', '\n'] + b + ind + seq!['}'],
                i1,
            )
        },
        Statement::InterfaceDecl { name, methods, .. } => (
            ind + "myat "@ + name@ + seq![' ', '{', '\n'] + method_lines(
                methods@,
                deeper(indent),
            ) + ind + seq!['}'],
            idx,
        ),
        Statement::PackageDecl { name, .. } => (ind + "atote "@ + name@ + seq![';'], idx),
        Statement::Go { call } => {
            let (c, i1) = expr_text(call, indent, nums, idx);
            (ind + "kyoe "@ + c + seq![';'], i1)
        },
        Statement::Defer { call } => {
            let (c, i1) = expr_text(call, indent, nums, idx);
            (ind + "naut_sone "@ + c + seq![';'], i1)
        },
        Statement::TestDecl { name, body, .. } => {
            let (b, i1) = block_text(body, deeper(indent), nums, idx);
            (ind + "set_sae "@ + name@ + seq![' ', '{', '\n'] + b + ind + seq!['}'], i1)
        },
        Statement::ForClassic { init, condition, post, body } => {
            let (a, i1) = opt_clause_text(init, indent, nums, idx);
            let (c, i2) = opt_expr_text(condition, indent, nums, i1);
            let (p, i3) = opt_clause_text(post, indent, nums, i2);
            let (b, i4) = block_text(body, deeper(indent), nums, i3);
            (
                ind + "pat ("@ + a + seq![';', ' '] + c + seq![';', ' '] + p + ") {\n"@ + b + ind
                    + seq!['}'],
                i4,
            )
        },
        Statement::Export { statement, .. } => {
            let (e, i1) = stmt_text(*statement, indent, nums, idx);
            (ind + "pay "@ + trim_start_spec(e), i1)
        },
    }
}

/// `Type field;` lines of a struct declaration.
pub open spec fn field_lines(fs: Seq<(String, Type)>, indent: usize) -> Seq<char>
    decreases fs.len(),
{
    if fs.len() == 0 {
        Seq::empty()
    } else {
        field_lines(fs.drop_last(), indent) + indent_text(indent as nat) + type_text(fs.last().1)
            + seq![' '] + fs.last().0@ + seq![';', '\n']
    }
}

/// `loke name(params) -> ret;` lines of an interface declaration.
pub open spec fn method_lines(ms: Seq<(String, Vec<(String, Type)>, Type)>, indent: usize) -> Seq<
    char,
>
    decreases ms.len(),
{
    if ms.len() == 0 {
        Seq::empty()
    } else {
        method_lines(ms.drop_last(), indent) + indent_text(indent as nat) + "loke "@ + ms.last().0@
            + seq!['('] + join(field_items(ms.last().1@), seq![',', ' ']) + ") -> "@ + type_text(
            ms.last().2,
        ) + seq![';', '\n']
    }
}


// ----------------------------------------------------------------------
// Printing

pub open spec fn ctx_ok(c: FormatContext) -> bool {
    c.number_index <= c.numbers.len()
}

proof fn lemma_items_push(v: Seq<Vec<char>>, x: Vec<char>)
    ensures
        items_model(v.push(x)) =~= items_model(v).push(x@),
{
}

fn param_item_list(ps: &Vec<(String, Type, Span)>) -> (r: Vec<Vec<char>>)
    ensures
        items_model(r@) == param_items(ps@),
{
    let mut out: Vec<Vec<char>> = Vec::new();
    let mut i: usize = 0;
    while i < ps.len()
        invariant
            i <= ps.len(),
            out.len() == i,
            forall|k: int| 0 <= k < i ==> (#[trigger] out@[k])@ == param_items(ps@)[k],
        decreases ps.len() - i,
    {
        let mut b: Vec<char> = Vec::new();
        push_type(&mut b, &ps[i].1);
        b.push(' ');
        push_string(&mut b, &ps[i].0);
        out.push(b);
        i = i + 1;
    }
    assert(items_model(out@) =~= param_items(ps@));
    out
}

fn field_item_list(ps: &Vec<(String, Type)>) -> (r: Vec<Vec<char>>)
    ensures
        items_model(r@) == field_items(ps@),
{
    let mut out: Vec<Vec<char>> = Vec::new();
    let mut i: usize = 0;
    while i < ps.len()
        invariant
            i <= ps.len(),
            out.len() == i,
            forall|k: int| 0 <= k < i ==> (#[trigger] out@[k])@ == field_items(ps@)[k],
        decreases ps.len() - i,
    {
        let mut b: Vec<char> = Vec::new();
        push_type(&mut b, &ps[i].1);
        b.push(' ');
        push_string(&mut b, &ps[i].0);
        out.push(b);
        i = i + 1;
    }
    assert(items_model(out@) =~= field_items(ps@));
    out
}

/// A parameter list as source text, e.g. `(kain a, sar b)`.
pub fn format_function_params(out: &mut Vec<char>, ps: &Vec<(String, Type, Span)>, indent: usize)
    ensures
        final(out)@ == old(out)@ + params_text(ps@, indent),
{
    if ps.len() == 0 {
        out.push('(');
        out.push(')');
        assert(out@ =~= old(out)@ + params_text(ps@, indent));
        return;
    }
    let items = param_item_list(ps);
    push_delimited(out, '(', ')', &items, indent);
}

#[verifier::rlimit(100)]
#[verifier::spinoff_prover]
fn push_expr(out: &mut Vec<char>, e: &Expression, indent: usize, ctx: &mut FormatContext)
    requires
        ctx_ok(*old(ctx)),
    ensures
        ctx_ok(*final(ctx)),
        final(ctx).numbers@ == old(ctx).numbers@,
        final(out)@ == old(out)@ + expr_text(
            *e,
            indent,
            old(ctx).nums(),
            old(ctx).number_index as nat,
        ).0,
        final(ctx).number_index == expr_text(
            *e,
            indent,
            old(ctx).nums(),
            old(ctx).number_index as nat,
        ).1,
    decreases e, 3nat,
{
    let ghost nums = ctx.nums();
    let ghost idx = ctx.number_index as nat;
    match e {
        Expression::IntegerLiteral(v) => {
            ctx.next_number(out, *v);
        },
        Expression::FloatLiteral(d) => {
            push_decimal(out, d.whole, &d.fraction, false);
        },
        Expression::StringLiteral(v) => {
            out.push('"');
            push_string(out, v);
            out.push('"');
        },
        Expression::BooleanLiteral(b) => {
            if *b {
                push_str(out, "hman");
            } else {
                push_str(out, "hmar");
            }
        },
        Expression::NilLiteral => {
            push_str(out, "bhala");
        },
        Expression::Identifier(n) => {
            push_string(out, n);
        },
        Expression::Binary { left, operator, right } => {
            let (prec, la) = operator_precedence(operator);
            let mut l: Vec<char> = Vec::new();
            push_expr(&mut l, left, indent, ctx);
            let mut r: Vec<char> = Vec::new();
            push_expr(&mut r, right, indent, ctx);
            let pl = needs_parentheses_exec(left, prec, operator, false);
            let pr = needs_parentheses_exec(right, prec, operator, true);
            if pl {
                out.push('(');
            }
            push_chars(out, &l);
            if pl {
                out.push(')');
            }
            out.push(' ');
            push_string(out, operator);
            out.push(' ');
            if pr {
                out.push('(');
            }
            push_chars(out, &r);
            if pr {
                out.push(')');
            }
        },
        Expression::FunctionCall { function, arguments } => {
            let items = expr_items(arguments, deeper_exec(indent), ctx);
            push_string(out, function);
            push_delimited(out, '(', ')', &items, indent);
        },
        Expression::ArrayLiteral { elements } => {
            let items = expr_items(elements, deeper_exec(indent), ctx);
            push_delimited(out, '[', ']', &items, indent);
        },
        Expression::HashLiteral { pairs } => {
            let items = pair_items(pairs, deeper_exec(indent), ctx);
            push_delimited(out, '{', '}', &items, indent);
        },
        Expression::IndexExpression { left, index } => {
            push_expr(out, left, indent, ctx);
            out.push('[');
            push_expr(out, index, indent, ctx);
            out.push(']');
        },
        Expression::ReadInput { prompt } => {
            push_str(out, "phat(");
            push_expr(out, prompt, indent, ctx);
            out.push(')');
        },
        Expression::SliceExpression { left, low, high } => {
            push_expr(out, left, indent, ctx);
            out.push('[');
            match low {
                Some(b) => push_expr(out, b, indent, ctx),
                None => {},
            }
            out.push(':');
            match high {
                Some(b) => push_expr(out, b, indent, ctx),
                None => {},
            }
            out.push(']');
        },
        Expression::TypeConversion { target_type, argument } => {
            let mut a: Vec<char> = Vec::new();
            push_expr(&mut a, argument, indent, ctx);
            push_str(out, "pyaung_");
            push_type(out, target_type);
            out.push('(');
            push_chars(out, &a);
            out.push(')');
        },
        Expression::MethodCall { object, method, arguments } => {
            push_expr(out, object, indent, ctx);
            let items = expr_items(arguments, indent, ctx);
            out.push('.');
            push_string(out, method);
            out.push('(');
            push_join(out, &items, ", ");
            out.push(')');
            assert(", "@ =~= seq![',', ' ']) by {
                reveal_strlit(", ");
            }
        },
        Expression::FieldAccess { object, field } => {
            push_expr(out, object, indent, ctx);
            out.push('.');
            push_string(out, field);
        },
        Expression::StructLiteral { name, fields } => {
            let items = named_item_list(fields, indent, ctx);
            push_string(out, name);
            out.push(' ');
            out.push('{');
            out.push(' ');
            push_join(out, &items, ", ");
            out.push(' ');
            out.push('}');
            assert(", "@ =~= seq![',', ' ']) by {
                reveal_strlit(", ");
            }
        },
        Expression::ClosureLiteral { parameters, return_type, body } => {
            let mut b: Vec<char> = Vec::new();
            push_block(&mut b, body, deeper_exec(indent), ctx);
            push_str(out, "loke");
            format_function_params(out, parameters, indent);
            match return_type {
                Type::Nil => {},
                _ => {
                    push_str(out, " -> ");
                    push_type(out, return_type);
                },
            }
            out.push(' ');
            out.push('{');
            out.push('\n');
            push_chars(out, &b);
            push_indent(out, indent);
            out.push('}');
        },
        Expression::ErrorCreate { message } => {
            push_str(out, "amhar(");
            push_expr(out, message, indent, ctx);
            out.push(')');
        },
        Expression::TupleLiteral { elements } => {
            let items = expr_items(elements, indent, ctx);
            out.push('(');
            push_join(out, &items, ", ");
            out.push(')');
            assert(", "@ =~= seq![',', ' ']) by {
                reveal_strlit(", ");
            }
        },
        Expression::ChannelMake { value_type, capacity } => {
            let mut c: Vec<char> = Vec::new();
            match capacity {
                Some(b) => push_expr(&mut c, b, indent, ctx),
                None => {},
            }
            push_str(out, "laung<");
            push_type(out, value_type);
            out.push('>');
            out.push('(');
            push_chars(out, &c);
            out.push(')');
        },
        Expression::BaungCreate { timeout_ms } => {
            push_str(out, "baung(");
            push_expr(out, timeout_ms, indent, ctx);
            out.push(')');
        },
    }
    assert(final(out)@ =~= old(out)@ + expr_text(*e, indent, nums, idx).0);
}

fn expr_items(es: &Vec<Expression>, indent: usize, ctx: &mut FormatContext) -> (r: Vec<Vec<char>>)
    requires
        ctx_ok(*old(ctx)),
    ensures
        ctx_ok(*final(ctx)),
        final(ctx).numbers@ == old(ctx).numbers@,
        items_model(r@) == exprs_items(es@, indent, old(ctx).nums(), old(ctx).number_index as nat).0,
        final(ctx).number_index == exprs_items(
            es@,
            indent,
            old(ctx).nums(),
            old(ctx).number_index as nat,
        ).1,
    decreases es@, 0nat,
{
    let ghost nums = ctx.nums();
    let ghost full = exprs_items(es@, indent, nums, ctx.number_index as nat);
    let mut out: Vec<Vec<char>> = Vec::new();
    let mut i: usize = 0;
    assert(es@.subrange(0, es.len() as int) =~= es@);
    while i < es.len()
        invariant
            i <= es.len(),
            ctx_ok(*ctx),
            ctx.numbers@ == old(ctx).numbers@,
            ctx.nums() == nums,
            items_model(out@) + exprs_items(
                es@.subrange(i as int, es.len() as int),
                indent,
                nums,
                ctx.number_index as nat,
            ).0 == full.0,
            exprs_items(es@.subrange(i as int, es.len() as int), indent, nums, ctx.number_index as nat).1
                == full.1,
        decreases es.len() - i,
    {
        let ghost sub = es@.subrange(i as int, es.len() as int);
        assert(sub.drop_first() =~= es@.subrange(i + 1, es.len() as int));
        assert(sub[0] == es@[i as int]);
        let mut b: Vec<char> = Vec::new();
        push_expr(&mut b, &es[i], indent, ctx);
        proof {
            lemma_items_push(out@, b);
        }
        out.push(b);
        i = i + 1;
    }
    assert(items_model(out@) + Seq::<Seq<char>>::empty() =~= items_model(out@));
    out
}

fn pair_items(ps: &Vec<(Expression, Expression)>, indent: usize, ctx: &mut FormatContext) -> (r: Vec<
    Vec<char>,
>)
    requires
        ctx_ok(*old(ctx)),
    ensures
        ctx_ok(*final(ctx)),
        final(ctx).numbers@ == old(ctx).numbers@,
        items_model(r@) == pairs_items(ps@, indent, old(ctx).nums(), old(ctx).number_index as nat).0,
        final(ctx).number_index == pairs_items(
            ps@,
            indent,
            old(ctx).nums(),
            old(ctx).number_index as nat,
        ).1,
    decreases ps@, 0nat,
{
    let ghost nums = ctx.nums();
    let ghost full = pairs_items(ps@, indent, nums, ctx.number_index as nat);
    let mut out: Vec<Vec<char>> = Vec::new();
    let mut i: usize = 0;
    assert(ps@.subrange(0, ps.len() as int) =~= ps@);
    while i < ps.len()
        invariant
            i <= ps.len(),
            ctx_ok(*ctx),
            ctx.numbers@ == old(ctx).numbers@,
            ctx.nums() == nums,
            items_model(out@) + pairs_items(
                ps@.subrange(i as int, ps.len() as int),
                indent,
                nums,
                ctx.number_index as nat,
            ).0 == full.0,
            pairs_items(ps@.subrange(i as int, ps.len() as int), indent, nums, ctx.number_index as nat).1
                == full.1,
        decreases ps.len() - i,
    {
        let ghost sub = ps@.subrange(i as int, ps.len() as int);
        assert(sub.drop_first() =~= ps@.subrange(i + 1, ps.len() as int));
        assert(sub[0] == ps@[i as int]);
        let ghost idx0 = ctx.number_index as nat;
        let ghost before = items_model(out@);
        let mut b: Vec<char> = Vec::new();
        push_expr(&mut b, &ps[i].0, indent, ctx);
        b.push(':');
        b.push(' ');
        push_expr(&mut b, &ps[i].1, indent, ctx);
        proof {
            let (k, i1) = expr_text(sub[0].0, indent, nums, idx0);
            let (v, i2) = expr_text(sub[0].1, indent, nums, i1);
            assert(b@ =~= k + seq![':', ' '] + v);
            let rest = pairs_items(sub.drop_first(), indent, nums, i2);
            assert(pairs_items(sub, indent, nums, idx0) == (seq![b@] + rest.0, rest.1));
            lemma_items_push(out@, b);
            assert(before.push(b@) + rest.0 =~= before + (seq![b@] + rest.0));
        }
        out.push(b);
        i = i + 1;
    }
    assert(items_model(out@) + Seq::<Seq<char>>::empty() =~= items_model(out@));
    out
}

fn named_item_list(fs: &Vec<(String, Expression)>, indent: usize, ctx: &mut FormatContext) -> (r:
    Vec<Vec<char>>)
    requires
        ctx_ok(*old(ctx)),
    ensures
        ctx_ok(*final(ctx)),
        final(ctx).numbers@ == old(ctx).numbers@,
        items_model(r@) == named_items(fs@, indent, old(ctx).nums(), old(ctx).number_index as nat).0,
        final(ctx).number_index == named_items(
            fs@,
            indent,
            old(ctx).nums(),
            old(ctx).number_index as nat,
        ).1,
    decreases fs@, 0nat,
{
    let ghost nums = ctx.nums();
    let ghost full = named_items(fs@, indent, nums, ctx.number_index as nat);
    let mut out: Vec<Vec<char>> = Vec::new();
    let mut i: usize = 0;
    assert(fs@.subrange(0, fs.len() as int) =~= fs@);
    while i < fs.len()
        invariant
            i <= fs.len(),
            ctx_ok(*ctx),
            ctx.numbers@ == old(ctx).numbers@,
            ctx.nums() == nums,
            items_model(out@) + named_items(
                fs@.subrange(i as int, fs.len() as int),
                indent,
                nums,
                ctx.number_index as nat,
            ).0 == full.0,
            named_items(fs@.subrange(i as int, fs.len() as int), indent, nums, ctx.number_index as nat).1
                == full.1,
        decreases fs.len() - i,
    {
        let ghost sub = fs@.subrange(i as int, fs.len() as int);
        assert(sub.drop_first() =~= fs@.subrange(i + 1, fs.len() as int));
        assert(sub[0] == fs@[i as int]);
        let ghost idx0 = ctx.number_index as nat;
        let ghost before = items_model(out@);
        let mut b: Vec<char> = Vec::new();
        push_string(&mut b, &fs[i].0);
        b.push(':');
        b.push(' ');
        push_expr(&mut b, &fs[i].1, indent, ctx);
        proof {
            let (v, i1) = expr_text(sub[0].1, indent, nums, idx0);
            assert(b@ =~= sub[0].0@ + seq![':', ' '] + v);
            let rest = named_items(sub.drop_first(), indent, nums, i1);
            assert(named_items(sub, indent, nums, idx0) == (seq![b@] + rest.0, rest.1));
            lemma_items_push(out@, b);
            assert(before.push(b@) + rest.0 =~= before + (seq![b@] + rest.0));
        }
        out.push(b);
        i = i + 1;
    }
    assert(items_model(out@) + Seq::<Seq<char>>::empty() =~= items_model(out@));
    out
}

fn push_block(out: &mut Vec<char>, b: &BlockStatement, indent: usize, ctx: &mut FormatContext)
    requires
        ctx_ok(*old(ctx)),
    ensures
        ctx_ok(*final(ctx)),
        final(ctx).numbers@ == old(ctx).numbers@,
        final(out)@ == old(out)@ + block_text(
            *b,
            indent,
            old(ctx).nums(),
            old(ctx).number_index as nat,
        ).0,
        final(ctx).number_index == block_text(
            *b,
            indent,
            old(ctx).nums(),
            old(ctx).number_index as nat,
        ).1,
    decreases b, 1nat,
{
    push_stmts(out, &b.statements, None, indent, ctx);
}

fn push_stmts(
    out: &mut Vec<char>,
    ss: &Vec<Statement>,
    prev: Option<bool>,
    indent: usize,
    ctx: &mut FormatContext,
)
    requires
        ctx_ok(*old(ctx)),
    ensures
        ctx_ok(*final(ctx)),
        final(ctx).numbers@ == old(ctx).numbers@,
        final(out)@ == old(out)@ + stmts_text(
            ss@,
            prev,
            indent,
            old(ctx).nums(),
            old(ctx).number_index as nat,
        ).0,
        final(ctx).number_index == stmts_text(
            ss@,
            prev,
            indent,
            old(ctx).nums(),
            old(ctx).number_index as nat,
        ).1,
    decreases ss@, 0nat,
{
    let ghost nums = ctx.nums();
    let ghost full = stmts_text(ss@, prev, indent, nums, ctx.number_index as nat);
    let mut i: usize = 0;
    let mut p = prev;
    assert(ss@.subrange(0, ss.len() as int) =~= ss@);
    while i < ss.len()
        invariant
            i <= ss.len(),
            ctx_ok(*ctx),
            ctx.numbers@ == old(ctx).numbers@,
            ctx.nums() == nums,
            i > 0 ==> p == Some(is_block_like(ss@[i - 1])),
            i == 0 ==> p == prev,
            out@ + stmts_text(
                ss@.subrange(i as int, ss.len() as int),
                p,
                indent,
                nums,
                ctx.number_index as nat,
            ).0 == old(out)@ + full.0,
            stmts_text(ss@.subrange(i as int, ss.len() as int), p, indent, nums, ctx.number_index as nat).1
                == full.1,
        decreases ss.len() - i,
    {
        let ghost sub = ss@.subrange(i as int, ss.len() as int);
        assert(sub.drop_first() =~= ss@.subrange(i + 1, ss.len() as int));
        assert(sub[0] == ss@[i as int]);
        let bl = statement_is_block_like(&ss[i]);
        match p {
            Some(pb) => {
                if pb || bl {
                    out.push('\n');
                }
            },
            None => {},
        }
        push_stmt(out, &ss[i], indent, ctx);
        out.push('\n');
        p = Some(bl);
        i = i + 1;
    }
    assert(out@ + Seq::<char>::empty() =~= out@);
}

fn push_alternative(
    out: &mut Vec<char>,
    alt: &Option<IfAlternative>,
    indent: usize,
    ctx: &mut FormatContext,
)
    requires
        ctx_ok(*old(ctx)),
    ensures
        ctx_ok(*final(ctx)),
        final(ctx).numbers@ == old(ctx).numbers@,
        final(out)@ == old(out)@ + alternative_text(
            *alt,
            indent,
            old(ctx).nums(),
            old(ctx).number_index as nat,
        ).0,
        final(ctx).number_index == alternative_text(
            *alt,
            indent,
            old(ctx).nums(),
            old(ctx).number_index as nat,
        ).1,
    decreases alt, 0nat,
{
    let ghost nums = ctx.nums();
    let ghost idx = ctx.number_index as nat;
    match alt {
        Some(IfAlternative::Else(block)) => {
            push_indent(out, indent);
            push_str(out, "} mo {\n");
            push_block(out, block, deeper_exec(indent), ctx);
            push_indent(out, indent);
            out.push('}');
        },
        Some(IfAlternative::ElseIf(inner)) => {
            let mut tmp: Vec<char> = Vec::new();
            push_stmt(&mut tmp, inner, indent, ctx);
            let t = trim_start_chars(&tmp);
            push_indent(out, indent);
            push_str(out, "} mo ");
            push_chars(out, &t);
        },
        None => {
            push_indent(out, indent);
            out.push('}');
        },
    }
    assert(final(out)@ =~= old(out)@ + alternative_text(*alt, indent, nums, idx).0);
}

fn push_clause(out: &mut Vec<char>, s: &Statement, indent: usize, ctx: &mut FormatContext)
    requires
        ctx_ok(*old(ctx)),
    ensures
        ctx_ok(*final(ctx)),
        final(ctx).numbers@ == old(ctx).numbers@,
        final(out)@ == old(out)@ + clause_text(
            *s,
            indent,
            old(ctx).nums(),
            old(ctx).number_index as nat,
        ).0,
        final(ctx).number_index == clause_text(
            *s,
            indent,
            old(ctx).nums(),
            old(ctx).number_index as nat,
        ).1,
    decreases s, 2nat,
{
    let ghost nums = ctx.nums();
    let ghost idx = ctx.number_index as nat;
    match s {
        Statement::Let { name, value, ty, .. } => {
            let mut v: Vec<char> = Vec::new();
            push_expr(&mut v, value, indent, ctx);
            push_type(out, ty);
            out.push(' ');
            push_string(out, name);
            out.push(' ');
            out.push('=');
            out.push(' ');
            push_chars(out, &v);
        },
        Statement::Assign { name, value, .. } => {
            let mut v: Vec<char> = Vec::new();
            push_expr(&mut v, value, indent, ctx);
            push_string(out, name);
            out.push(' ');
            out.push('=');
            out.push(' ');
            push_chars(out, &v);
        },
        Statement::ExpressionStatement(e) => {
            push_expr(out, e, indent, ctx);
        },
        _ => {
            push_stmt(out, s, indent, ctx);
        },
    }
    assert(final(out)@ =~= old(out)@ + clause_text(*s, indent, nums, idx).0);
}

fn push_opt_clause(out: &mut Vec<char>, o: &Option<Box<Statement>>, indent: usize, ctx: &mut FormatContext)
    requires
        ctx_ok(*old(ctx)),
    ensures
        ctx_ok(*final(ctx)),
        final(ctx).numbers@ == old(ctx).numbers@,
        final(out)@ == old(out)@ + opt_clause_text(
            *o,
            indent,
            old(ctx).nums(),
            old(ctx).number_index as nat,
        ).0,
        final(ctx).number_index == opt_clause_text(
            *o,
            indent,
            old(ctx).nums(),
            old(ctx).number_index as nat,
        ).1,
    decreases o, 0nat,
{
    reveal(opt_clause_text);
    match o {
        Some(st) => push_clause(out, st, indent, ctx),
        None => {
            assert(out@ =~= old(out)@ + Seq::<char>::empty());
        },
    }
}

fn push_opt_expr(out: &mut Vec<char>, o: &Option<Expression>, indent: usize, ctx: &mut FormatContext)
    requires
        ctx_ok(*old(ctx)),
    ensures
        ctx_ok(*final(ctx)),
        final(ctx).numbers@ == old(ctx).numbers@,
        final(out)@ == old(out)@ + opt_expr_text(
            *o,
            indent,
            old(ctx).nums(),
            old(ctx).number_index as nat,
        ).0,
        final(ctx).number_index == opt_expr_text(
            *o,
            indent,
            old(ctx).nums(),
            old(ctx).number_index as nat,
        ).1,
    decreases o, 0nat,
{
    match o {
        Some(e) => push_expr(out, e, indent, ctx),
        None => {
            assert(out@ =~= old(out)@ + Seq::<char>::empty());
        },
    }
}

fn push_field_lines(out: &mut Vec<char>, fs: &Vec<(String, Type)>, indent: usize)
    ensures
        final(out)@ == old(out)@ + field_lines(fs@, indent),
{
    let mut i: usize = 0;
    while i < fs.len()
        invariant
            i <= fs.len(),
            out@ == old(out)@ + field_lines(fs@.subrange(0, i as int), indent),
        decreases fs.len() - i,
    {
        push_indent(out, indent);
        push_type(out, &fs[i].1);
        out.push(' ');
        push_string(out, &fs[i].0);
        out.push(';');
        out.push('\n');
        assert(fs@.subrange(0, i + 1).drop_last() =~= fs@.subrange(0, i as int));
        i = i + 1;
        assert(out@ =~= old(out)@ + field_lines(fs@.subrange(0, i as int), indent));
    }
    assert(fs@.subrange(0, fs.len() as int) =~= fs@);
}

fn push_method_lines(
    out: &mut Vec<char>,
    ms: &Vec<(String, Vec<(String, Type)>, Type)>,
    indent: usize,
)
    ensures
        final(out)@ == old(out)@ + method_lines(ms@, indent),
{
    let mut i: usize = 0;
    while i < ms.len()
        invariant
            i <= ms.len(),
            out@ == old(out)@ + method_lines(ms@.subrange(0, i as int), indent),
        decreases ms.len() - i,
    {
        let items = field_item_list(&ms[i].1);
        push_indent(out, indent);
        push_str(out, "loke ");
        push_string(out, &ms[i].0);
        out.push('(');
        push_join(out, &items, ", ");
        push_str(out, ") -> ");
        push_type(out, &ms[i].2);
        out.push(';');
        out.push('\n');
        assert(", "@ =~= seq![',', ' ']) by {
            reveal_strlit(", ");
        }
        assert(ms@.subrange(0, i + 1).drop_last() =~= ms@.subrange(0, i as int));
        i = i + 1;
        assert(out@ =~= old(out)@ + method_lines(ms@.subrange(0, i as int), indent));
    }
    assert(ms@.subrange(0, ms.len() as int) =~= ms@);
}

fn push_stmt(out: &mut Vec<char>, s: &Statement, indent: usize, ctx: &mut FormatContext)
    requires
        ctx_ok(*old(ctx)),
    ensures
        ctx_ok(*final(ctx)),
        final(ctx).numbers@ == old(ctx).numbers@,
        final(out)@ == old(out)@ + stmt_text(
            *s,
            indent,
            old(ctx).nums(),
            old(ctx).number_index as nat,
        ).0,
        final(ctx).number_index == stmt_text(
            *s,
            indent,
            old(ctx).nums(),
            old(ctx).number_index as nat,
        ).1,
    decreases s, 1nat,
{
    match s {
        Statement::Let { .. } | Statement::LetDestructured { .. } | Statement::Assign { .. } | Statement::FieldAssign { .. } | Statement::IndexAssign { .. } => push_assign_stmt(out, s, indent, ctx),
        Statement::Break | Statement::Continue | Statement::Return { .. } | Statement::Print { .. } | Statement::Import { .. } | Statement::ExpressionStatement(..) | Statement::PackageDecl { .. } | Statement::Go { .. } | Statement::Defer { .. } => push_simple_stmt(out, s, indent, ctx),
        Statement::If { .. } => push_if_stmt(out, s, indent, ctx),
        Statement::While { .. } | Statement::ForIn { .. } => push_loop_stmt(out, s, indent, ctx),
        Statement::ForClassic { .. } => push_for_classic_stmt(out, s, indent, ctx),
        Statement::FunctionDecl { .. } | Statement::MethodDecl { .. } => push_function_decl(out, s, indent, ctx),
        Statement::StructDecl { .. } | Statement::InterfaceDecl { .. } => push_type_decl(out, s, indent, ctx),
        Statement::TestDecl { .. } | Statement::Export { .. } => push_test_or_export(out, s, indent, ctx),
    }
}

/// Bindings and assignments.
#[verifier::rlimit(100)]
#[verifier::spinoff_prover]
fn push_assign_stmt(out: &mut Vec<char>, s: &Statement, indent: usize, ctx: &mut FormatContext)
    requires
        ctx_ok(*old(ctx)),
        *s is Let || *s is LetDestructured || *s is Assign || *s is FieldAssign || *s is IndexAssign,
    ensures
        ctx_ok(*final(ctx)),
        final(ctx).numbers@ == old(ctx).numbers@,
        final(out)@ == old(out)@ + stmt_text(
            *s,
            indent,
            old(ctx).nums(),
            old(ctx).number_index as nat,
        ).0,
        final(ctx).number_index == stmt_text(
            *s,
            indent,
            old(ctx).nums(),
            old(ctx).number_index as nat,
        ).1,
    decreases s, 0nat,
{
    let ghost nums = ctx.nums();
    let ghost idx = ctx.number_index as nat;
    match s {
        Statement::Let { name, value, ty, .. } => {
            let mut v: Vec<char> = Vec::new();
            push_expr(&mut v, value, indent, ctx);
            push_indent(out, indent);
            push_type(out, ty);
            out.push(' ');
            push_string(out, name);
            out.push(' ');
            out.push('=');
            out.push(' ');
            push_chars(out, &v);
            out.push(';');
        },
        Statement::LetDestructured { names, value } => {
            let items = param_item_list(names);
            let mut v: Vec<char> = Vec::new();
            push_expr(&mut v, value, indent, ctx);
            push_indent(out, indent);
            push_join(out, &items, ", ");
            out.push(' ');
            out.push('=');
            out.push(' ');
            push_chars(out, &v);
            out.push(';');
            assert(", "@ =~= seq![',', ' ']) by {
                reveal_strlit(", ");
            }
        },
        Statement::Assign { name, value, .. } => {
            let mut v: Vec<char> = Vec::new();
            push_expr(&mut v, value, indent, ctx);
            push_indent(out, indent);
            push_string(out, name);
            out.push(' ');
            out.push('=');
            out.push(' ');
            push_chars(out, &v);
            out.push(';');
        },
        Statement::FieldAssign { object, field, value, .. } => {
            let mut v: Vec<char> = Vec::new();
            push_expr(&mut v, value, indent, ctx);
            push_indent(out, indent);
            push_string(out, object);
            out.push('.');
            push_string(out, field);
            out.push(' ');
            out.push('=');
            out.push(' ');
            push_chars(out, &v);
            out.push(';');
        },
        Statement::IndexAssign { object, index, value, .. } => {
            let mut o: Vec<char> = Vec::new();
            push_expr(&mut o, object, indent, ctx);
            let mut ix: Vec<char> = Vec::new();
            push_expr(&mut ix, index, indent, ctx);
            let mut v: Vec<char> = Vec::new();
            push_expr(&mut v, value, indent, ctx);
            push_indent(out, indent);
            push_chars(out, &o);
            out.push('[');
            push_chars(out, &ix);
            out.push(']');
            out.push(' ');
            out.push('=');
            out.push(' ');
            push_chars(out, &v);
            out.push(';');
        },
        _ => {},
    }
    assert(final(out)@ =~= old(out)@ + stmt_text(*s, indent, nums, idx).0);
}

/// One-line statements other than bindings.
#[verifier::rlimit(100)]
#[verifier::spinoff_prover]
fn push_simple_stmt(out: &mut Vec<char>, s: &Statement, indent: usize, ctx: &mut FormatContext)
    requires
        ctx_ok(*old(ctx)),
        *s is Break || *s is Continue || *s is Return || *s is Print || *s is Import || *s is ExpressionStatement || *s is PackageDecl || *s is Go || *s is Defer,
    ensures
        ctx_ok(*final(ctx)),
        final(ctx).numbers@ == old(ctx).numbers@,
        final(out)@ == old(out)@ + stmt_text(
            *s,
            indent,
            old(ctx).nums(),
            old(ctx).number_index as nat,
        ).0,
        final(ctx).number_index == stmt_text(
            *s,
            indent,
            old(ctx).nums(),
            old(ctx).number_index as nat,
        ).1,
    decreases s, 0nat,
{
    let ghost nums = ctx.nums();
    let ghost idx = ctx.number_index as nat;
    match s {
        Statement::Break => {
            push_indent(out, indent);
            push_str(out, "yut;");
        },
        Statement::Continue => {
            push_indent(out, indent);
            push_str(out, "shar;");
        },
        Statement::Return { value } => {
            match value {
                Expression::TupleLiteral { elements } => {
                    let items = expr_items(elements, indent, ctx);
                    push_indent(out, indent);
                    push_str(out, "pyan (");
                    push_join(out, &items, ", ");
                    out.push(')');
                    out.push(';');
                    assert(", "@ =~= seq![',', ' ']) by {
                        reveal_strlit(", ");
                    }
                },
                _ => {
                    let mut v: Vec<char> = Vec::new();
                    push_expr(&mut v, value, indent, ctx);
                    push_indent(out, indent);
                    push_str(out, "pyan ");
                    push_chars(out, &v);
                    out.push(';');
                },
            }
        },
        Statement::Print { value } => {
            let mut v: Vec<char> = Vec::new();
            push_expr(&mut v, value, indent, ctx);
            push_indent(out, indent);
            push_str(out, "pya(");
            push_chars(out, &v);
            out.push(')');
            out.push(';');
        },
        Statement::Import { module, .. } => {
            let m = trim_quotes_exec(module.as_str());
            push_indent(out, indent);
            push_str(out, "yu \"");
            push_chars(out, &m);
            out.push('"');
            out.push(';');
        },
        Statement::ExpressionStatement(e) => {
            let mut v: Vec<char> = Vec::new();
            push_expr(&mut v, e, indent, ctx);
            push_indent(out, indent);
            push_chars(out, &v);
            out.push(';');
        },
        Statement::PackageDecl { name, .. } => {
            push_indent(out, indent);
            push_str(out, "atote ");
            push_string(out, name);
            out.push(';');
        },
        Statement::Go { call } => {
            let mut c: Vec<char> = Vec::new();
            push_expr(&mut c, call, indent, ctx);
            push_indent(out, indent);
            push_str(out, "kyoe ");
            push_chars(out, &c);
            out.push(';');
        },
        Statement::Defer { call } => {
            let mut c: Vec<char> = Vec::new();
            push_expr(&mut c, call, indent, ctx);
            push_indent(out, indent);
            push_str(out, "naut_sone ");
            push_chars(out, &c);
            out.push(';');
        },
        _ => {},
    }
    assert(final(out)@ =~= old(out)@ + stmt_text(*s, indent, nums, idx).0);
}

/// An if statement with its alternatives.
#[verifier::rlimit(100)]
#[verifier::spinoff_prover]
fn push_if_stmt(out: &mut Vec<char>, s: &Statement, indent: usize, ctx: &mut FormatContext)
    requires
        ctx_ok(*old(ctx)),
        *s is If,
    ensures
        ctx_ok(*final(ctx)),
        final(ctx).numbers@ == old(ctx).numbers@,
        final(out)@ == old(out)@ + stmt_text(
            *s,
            indent,
            old(ctx).nums(),
            old(ctx).number_index as nat,
        ).0,
        final(ctx).number_index == stmt_text(
            *s,
            indent,
            old(ctx).nums(),
            old(ctx).number_index as nat,
        ).1,
    decreases s, 0nat,
{
    let ghost nums = ctx.nums();
    let ghost idx = ctx.number_index as nat;
    match s {
        Statement::If { condition, consequence, alternative } => {
            let mut c: Vec<char> = Vec::new();
            push_expr(&mut c, condition, indent, ctx);
            push_indent(out, indent);
            push_str(out, "hlyin (");
            push_chars(out, &c);
            push_str(out, ") {\n");
            push_block(out, consequence, deeper_exec(indent), ctx);
            push_alternative(out, alternative, indent, ctx);
        },
        _ => {},
    }
    assert(final(out)@ =~= old(out)@ + stmt_text(*s, indent, nums, idx).0);
}

/// A condition loop or a loop over a collection.
#[verifier::rlimit(100)]
#[verifier::spinoff_prover]
fn push_loop_stmt(out: &mut Vec<char>, s: &Statement, indent: usize, ctx: &mut FormatContext)
    requires
        ctx_ok(*old(ctx)),
        *s is While || *s is ForIn,
    ensures
        ctx_ok(*final(ctx)),
        final(ctx).numbers@ == old(ctx).numbers@,
        final(out)@ == old(out)@ + stmt_text(
            *s,
            indent,
            old(ctx).nums(),
            old(ctx).number_index as nat,
        ).0,
        final(ctx).number_index == stmt_text(
            *s,
            indent,
            old(ctx).nums(),
            old(ctx).number_index as nat,
        ).1,
    decreases s, 0nat,
{
    let ghost nums = ctx.nums();
    let ghost idx = ctx.number_index as nat;
    match s {
        Statement::While { condition, body } => {
            let mut c: Vec<char> = Vec::new();
            push_expr(&mut c, condition, indent, ctx);
            push_indent(out, indent);
            push_str(out, "pat (");
            push_chars(out, &c);
            push_str(out, ") {\n");
            push_block(out, body, deeper_exec(indent), ctx);
            push_indent(out, indent);
            out.push('}');
        },
        Statement::ForIn { index, iterator, collection, body, .. } => {
            let mut c: Vec<char> = Vec::new();
            push_expr(&mut c, collection, indent, ctx);
            push_indent(out, indent);
            match index {
                Some(ix) => {
                    push_str(out, "pat (");
                    push_string(out, ix);
                    out.push(',');
                    out.push(' ');
                    push_string(out, iterator);
                    push_str(out, ") htae ");
                },
                None => {
                    push_str(out, "pat ");
                    push_string(out, iterator);
                    push_str(out, " htae ");
                },
            }
            push_chars(out, &c);
            out.push(' ');
            out.push('{');
            out.push('\n');
            push_block(out, body, deeper_exec(indent), ctx);
            push_indent(out, indent);
            out.push('}');
        },
        _ => {},
    }
    assert(final(out)@ =~= old(out)@ + stmt_text(*s, indent, nums, idx).0);
}

/// A loop with init, condition and post clauses.
#[verifier::rlimit(100)]
#[verifier::spinoff_prover]
fn push_for_classic_stmt(out: &mut Vec<char>, s: &Statement, indent: usize, ctx: &mut FormatContext)
    requires
        ctx_ok(*old(ctx)),
        *s is ForClassic,
    ensures
        ctx_ok(*final(ctx)),
        final(ctx).numbers@ == old(ctx).numbers@,
        final(out)@ == old(out)@ + stmt_text(
            *s,
            indent,
            old(ctx).nums(),
            old(ctx).number_index as nat,
        ).0,
        final(ctx).number_index == stmt_text(
            *s,
            indent,
            old(ctx).nums(),
            old(ctx).number_index as nat,
        ).1,
    decreases s, 0nat,
{
    let ghost nums = ctx.nums();
    let ghost idx = ctx.number_index as nat;
    match s {
        Statement::ForClassic { init, condition, post, body } => {
            let ghost (ta, i1) = opt_clause_text(*init, indent, nums, idx);
            let mut a: Vec<char> = Vec::new();
            push_opt_clause(&mut a, init, indent, ctx);
            assert(a@ =~= ta);
            let ghost (tc, i2) = opt_expr_text(*condition, indent, nums, i1);
            let mut c: Vec<char> = Vec::new();
            push_opt_expr(&mut c, condition, indent, ctx);
            assert(c@ =~= tc);
            let ghost (tp, i3) = opt_clause_text(*post, indent, nums, i2);
            let mut p: Vec<char> = Vec::new();
            push_opt_clause(&mut p, post, indent, ctx);
            assert(p@ =~= tp);
            let mut b: Vec<char> = Vec::new();
            push_block(&mut b, body, deeper_exec(indent), ctx);
            let ghost tb = block_text(*body, deeper(indent), nums, i3).0;
            let ghost ind = indent_text(indent as nat);
            let ghost o0 = out@;
            push_indent(out, indent);
            push_str(out, "pat (");
            push_chars(out, &a);
            out.push(';');
            out.push(' ');
            assert(out@ =~= o0 + ind + "pat ("@ + ta + seq![';', ' ']);
            push_chars(out, &c);
            out.push(';');
            out.push(' ');
            push_chars(out, &p);
            assert(out@ =~= o0 + ind + "pat ("@ + ta + seq![';', ' '] + tc + seq![';', ' '] + tp);
            push_str(out, ") {\n");
            push_chars(out, &b);
            push_indent(out, indent);
            out.push('}');
            assert(out@ =~= o0 + (ind + "pat ("@ + ta + seq![';', ' '] + tc + seq![';', ' '] + tp
                + ") {\n"@ + tb + ind + seq!['}']));
        },
        _ => {},
    }
    assert(final(out)@ =~= old(out)@ + stmt_text(*s, indent, nums, idx).0);
}

/// A function or method declaration.
#[verifier::rlimit(100)]
#[verifier::spinoff_prover]
fn push_function_decl(out: &mut Vec<char>, s: &Statement, indent: usize, ctx: &mut FormatContext)
    requires
        ctx_ok(*old(ctx)),
        *s is FunctionDecl || *s is MethodDecl,
    ensures
        ctx_ok(*final(ctx)),
        final(ctx).numbers@ == old(ctx).numbers@,
        final(out)@ == old(out)@ + stmt_text(
            *s,
            indent,
            old(ctx).nums(),
            old(ctx).number_index as nat,
        ).0,
        final(ctx).number_index == stmt_text(
            *s,
            indent,
            old(ctx).nums(),
            old(ctx).number_index as nat,
        ).1,
    decreases s, 0nat,
{
    let ghost nums = ctx.nums();
    let ghost idx = ctx.number_index as nat;
    match s {
        Statement::FunctionDecl { name, parameters, return_type, body, .. } => {
            let mut b: Vec<char> = Vec::new();
            push_block(&mut b, body, deeper_exec(indent), ctx);
            push_indent(out, indent);
            push_str(out, "loke ");
            push_string(out, name);
            format_function_params(out, parameters, indent);
            push_str(out, " -> ");
            push_type(out, return_type);
            out.push(' ');
            out.push('{');
            out.push('\n');
            push_chars(out, &b);
            push_indent(out, indent);
            out.push('}');
        },
        Statement::MethodDecl {
            receiver_type,
            receiver_name,
            name,
            parameters,
            return_type,
            body,
            ..
        } => {
            let mut b: Vec<char> = Vec::new();
            push_block(&mut b, body, deeper_exec(indent), ctx);
            push_indent(out, indent);
            push_str(out, "nee (");
            push_string(out, receiver_type);
            out.push(' ');
            push_string(out, receiver_name);
            out.push(')');
            out.push(' ');
            push_string(out, name);
            format_function_params(out, parameters, indent);
            push_str(out, " -> ");
            push_type(out, return_type);
            out.push(' ');
            out.push('{');
            out.push('\n');
            push_chars(out, &b);
            push_indent(out, indent);
            out.push('}');
        },
        _ => {},
    }
    assert(final(out)@ =~= old(out)@ + stmt_text(*s, indent, nums, idx).0);
}

/// A struct or interface declaration.
#[verifier::rlimit(100)]
#[verifier::spinoff_prover]
fn push_type_decl(out: &mut Vec<char>, s: &Statement, indent: usize, ctx: &mut FormatContext)
    requires
        ctx_ok(*old(ctx)),
        *s is StructDecl || *s is InterfaceDecl,
    ensures
        ctx_ok(*final(ctx)),
        final(ctx).numbers@ == old(ctx).numbers@,
        final(out)@ == old(out)@ + stmt_text(
            *s,
            indent,
            old(ctx).nums(),
            old(ctx).number_index as nat,
        ).0,
        final(ctx).number_index == stmt_text(
            *s,
            indent,
            old(ctx).nums(),
            old(ctx).number_index as nat,
        ).1,
    decreases s, 0nat,
{
    let ghost nums = ctx.nums();
    let ghost idx = ctx.number_index as nat;
    match s {
        Statement::StructDecl { name, fields, .. } => {
            push_indent(out, indent);
            push_str(out, "pone ");
            push_string(out, name);
            out.push(' ');
            out.push('{');
            out.push('\n');
            push_field_lines(out, fields, deeper_exec(indent));
            push_indent(out, indent);
            out.push('}');
        },
        Statement::InterfaceDecl { name, methods, .. } => {
            push_indent(out, indent);
            push_str(out, "myat ");
            push_string(out, name);
            out.push(' ');
            out.push('{');
            out.push('\n');
            push_method_lines(out, methods, deeper_exec(indent));
            push_indent(out, indent);
            out.push('}');
        },
        _ => {},
    }
    assert(final(out)@ =~= old(out)@ + stmt_text(*s, indent, nums, idx).0);
}

/// A test block or an exported declaration.
#[verifier::rlimit(100)]
#[verifier::spinoff_prover]
fn push_test_or_export(out: &mut Vec<char>, s: &Statement, indent: usize, ctx: &mut FormatContext)
    requires
        ctx_ok(*old(ctx)),
        *s is TestDecl || *s is Export,
    ensures
        ctx_ok(*final(ctx)),
        final(ctx).numbers@ == old(ctx).numbers@,
        final(out)@ == old(out)@ + stmt_text(
            *s,
            indent,
            old(ctx).nums(),
            old(ctx).number_index as nat,
        ).0,
        final(ctx).number_index == stmt_text(
            *s,
            indent,
            old(ctx).nums(),
            old(ctx).number_index as nat,
        ).1,
    decreases s, 0nat,
{
    let ghost nums = ctx.nums();
    let ghost idx = ctx.number_index as nat;
    match s {
        Statement::TestDecl { name, body, .. } => {
            let mut b: Vec<char> = Vec::new();
            push_block(&mut b, body, deeper_exec(indent), ctx);
            push_indent(out, indent);
            push_str(out, "set_sae ");
            push_string(out, name);
            out.push(' ');
            out.push('{');
            out.push('\n');
            push_chars(out, &b);
            push_indent(out, indent);
            out.push('}');
        },
        Statement::Export { statement, .. } => {
            let mut tmp: Vec<char> = Vec::new();
            push_stmt(&mut tmp, statement, indent, ctx);
            let t = trim_start_chars(&tmp);
            push_indent(out, indent);
            push_str(out, "pay ");
            push_chars(out, &t);
        },
        _ => {},
    }
    assert(final(out)@ =~= old(out)@ + stmt_text(*s, indent, nums, idx).0);
}

// ----------------------------------------------------------------------
// Whole programs

/// The comment lines at the top of the output: `//` and the comment's text.
pub open spec fn comment_lines(cs: Seq<Seq<char>>) -> Seq<char>
    decreases cs.len(),
{
    if cs.len() == 0 {
        Seq::empty()
    } else {
        comment_lines(cs.drop_last()) + seq!['/', '/'] + cs.last() + seq!['\n']
    }
}

/// `s` without the line breaks that follow another line break at its end.
pub open spec fn drop_extra_newlines(s: Seq<char>) -> Seq<char>
    decreases s.len(),
{
    if s.len() >= 2 && s.last() == '\n' && s[s.len() - 2] == '\n' {
        drop_extra_newlines(s.drop_last())
    } else {
        s
    }
}

/// `s` ending in exactly one line break.
pub open spec fn single_trailing_newline(s: Seq<char>) -> Seq<char> {
    let t = drop_extra_newlines(s);
    if t.len() > 0 && t.last() == '\n' {
        t
    } else {
        t.push('\n')
    }
}

/// The formatted text of a program: its comments, a blank line when there
/// are both comments and statements, the statements at the outer level, and
/// one line break at the end.
pub open spec fn program_text(p: Program, comments: Seq<Seq<char>>, nums: Seq<(i64, Seq<char>)>) -> Seq<
    char,
> {
    let sep: Seq<char> = if comments.len() > 0 && p.statements.len() > 0 {
        seq!['\n']
    } else {
        Seq::empty()
    };
    single_trailing_newline(
        comment_lines(comments) + sep + stmts_text(p.statements@, None, 0, nums, 0).0,
    )
}

/// Dropping extra line breaks at the end never reaches into a prefix that
/// ends in a single line break.
proof fn lemma_drop_extra_newlines_keeps(s: Seq<char>, n: int)
    requires
        2 <= n <= s.len(),
        s[n - 1] == '\n',
        s[n - 2] != '\n',
    ensures
        n <= drop_extra_newlines(s).len(),
        drop_extra_newlines(s).subrange(0, n) == s.subrange(0, n),
    decreases s.len(),
{
    if s.len() >= 2 && s.last() == '\n' && s[s.len() - 2] == '\n' {
        lemma_drop_extra_newlines_keeps(s.drop_last(), n);
        assert(s.drop_last().subrange(0, n) =~= s.subrange(0, n));
    }
}

/// The formatted text of a program starts with its comment lines: each
/// comment as `//text` on a line of its own, ahead of every statement
/// (comment texts never end in a line break, as the lexer trims them).
pub proof fn law_comments_first(p: Program, cs: Seq<Seq<char>>, nums: Seq<(i64, Seq<char>)>)
    requires
        forall|i: int| 0 <= i < cs.len() ==> !(cs[i].len() > 0 && #[trigger] cs[i].last() == '\n'),
    ensures
        comment_lines(cs).len() <= program_text(p, cs, nums).len(),
        program_text(p, cs, nums).subrange(0, comment_lines(cs).len() as int) == comment_lines(cs),
{
    let a = comment_lines(cs);
    let sep: Seq<char> = if cs.len() > 0 && p.statements.len() > 0 {
        seq!['\n']
    } else {
        Seq::empty()
    };
    let s = a + sep + stmts_text(p.statements@, None, 0, nums, 0).0;
    let t = drop_extra_newlines(s);
    if cs.len() == 0 {
        assert(a =~= Seq::<char>::empty());
        assert(program_text(p, cs, nums).subrange(0, 0) =~= a);
    } else {
        let c = cs.last();
        assert(!(c.len() > 0 && c.last() == '\n'));
        assert(a =~= comment_lines(cs.drop_last()) + seq!['/', '/'] + c + seq!['\n']);
        assert(a.len() >= 3);
        assert(a[a.len() - 1] == '\n');
        assert(a[a.len() - 2] != '\n') by {
            if c.len() > 0 {
                assert(a[a.len() - 2] == c.last());
            } else {
                assert(a[a.len() - 2] == '/');
            }
        }
        assert(s.subrange(0, a.len() as int) =~= a);
        assert(s[a.len() - 1] == a[a.len() - 1]);
        assert(s[a.len() - 2] == a[a.len() - 2]);
        lemma_drop_extra_newlines_keeps(s, a.len() as int);
        if t.len() > 0 && t.last() == '\n' {
        } else {
            assert(t.push('\n').subrange(0, a.len() as int) =~= t.subrange(0, a.len() as int));
        }
    }
}

/// Whether a text ends in one line break and not in two.
pub open spec fn ends_in_one_newline(t: Seq<char>) -> bool {
    &&& t.len() > 0
    &&& t.last() == '\n'
    &&& !(t.len() >= 2 && t[t.len() - 2] == '\n')
}

proof fn lemma_drop_extra_newlines(s: Seq<char>)
    ensures
        !(drop_extra_newlines(s).len() >= 2 && drop_extra_newlines(s).last() == '\n'
            && drop_extra_newlines(s)[drop_extra_newlines(s).len() - 2] == '\n'),
    decreases s.len(),
{
    if s.len() >= 2 && s.last() == '\n' && s[s.len() - 2] == '\n' {
        lemma_drop_extra_newlines(s.drop_last());
    }
}

/// Whatever the program, formatted output ends in exactly one line break.
pub proof fn lemma_program_text_ends_in_one_newline(
    p: Program,
    comments: Seq<Seq<char>>,
    nums: Seq<(i64, Seq<char>)>,
)
    ensures
        ends_in_one_newline(program_text(p, comments, nums)),
{
    let sep: Seq<char> = if comments.len() > 0 && p.statements.len() > 0 {
        seq!['\n']
    } else {
        Seq::empty()
    };
    let raw = comment_lines(comments) + sep + stmts_text(p.statements@, None, 0, nums, 0).0;
    lemma_drop_extra_newlines(raw);
}

fn push_comment_lines(out: &mut Vec<char>, comments: &Vec<CommentInfo>)
    ensures
        final(out)@ == old(out)@ + comment_lines(comment_texts(comments@)),
{
    let mut i: usize = 0;
    while i < comments.len()
        invariant
            i <= comments.len(),
            out@ == old(out)@ + comment_lines(comment_texts(comments@).subrange(0, i as int)),
        decreases comments.len() - i,
    {
        out.push('/');
        out.push('/');
        push_string(out, &comments[i].text);
        out.push('\n');
        proof {
            let ct = comment_texts(comments@);
            assert(ct.subrange(0, i + 1).drop_last() =~= ct.subrange(0, i as int));
        }
        i = i + 1;
        assert(out@ =~= old(out)@ + comment_lines(comment_texts(comments@).subrange(0, i as int)));
    }
    assert(comment_texts(comments@).subrange(0, comments.len() as int) =~= comment_texts(comments@));
}

/// Leaves exactly one line break at the end of `out`.
fn finish_with_newline(out: &mut Vec<char>)
    ensures
        final(out)@ == single_trailing_newline(old(out)@),
{
    while out.len() >= 2 && out[out.len() - 1] == '\n' && out[out.len() - 2] == '\n'
        invariant
            drop_extra_newlines(out@) == drop_extra_newlines(old(out)@),
        decreases out.len(),
    {
        out.pop();
    }
    if !(out.len() > 0 && out[out.len() - 1] == '\n') {
        out.push('\n');
    }
}

/// The texts of the comments.
pub open spec fn comment_texts(v: Seq<CommentInfo>) -> Seq<Seq<char>> {
    Seq::new(v.len(), |i: int| v[i].text@)
}

/// Formats a parsed program, given the comments and number literals of its
/// source in order.
pub fn format_program(program: &Program, comments: &Vec<CommentInfo>, numbers: Vec<NumberInfo>) -> (r:
    String)
    ensures
        r@ == program_text(*program, comment_texts(comments@), number_models(numbers@)),
{
    let mut ctx = FormatContext { numbers, number_index: 0 };
    let mut out: Vec<char> = Vec::new();
    push_comment_lines(&mut out, comments);
    if comments.len() > 0 && program.statements.len() > 0 {
        out.push('\n');
    }
    push_stmts(&mut out, &program.statements, None, 0, &mut ctx);
    let ghost sep: Seq<char> = if comments.len() > 0 && program.statements.len() > 0 {
        seq!['\n']
    } else {
        Seq::empty()
    };
    assert(out@ =~= comment_lines(comment_texts(comments@)) + sep + stmts_text(
        program.statements@,
        None,
        0,
        number_models(numbers@),
        0,
    ).0);
    finish_with_newline(&mut out);
    crate::text::string_of(out.as_slice())
}
// ----------------------------------------------------------------------
// Source lines

/// The first position at or after `i` that holds a line break, or the end.
pub open spec fn newline_at(s: Seq<char>, i: int) -> int
    decreases s.len() - i,
{
    if 0 <= i < s.len() && s[i] != '\n' {
        newline_at(s, i + 1)
    } else {
        i
    }
}

pub proof fn lemma_newline_at(s: Seq<char>, i: int)
    ensures
        newline_at(s, i) >= i,
        0 <= i <= s.len() ==> newline_at(s, i) <= s.len(),
        0 <= i ==> newline_at(s, i) < s.len() ==> s[newline_at(s, i)] == '\n',
    decreases s.len() - i,
{
    if 0 <= i < s.len() && s[i] != '\n' {
        lemma_newline_at(s, i + 1);
    }
}

/// A line without the carriage return that ended it.
pub open spec fn strip_cr(l: Seq<char>) -> Seq<char> {
    if l.len() > 0 && l.last() == '\r' {
        l.drop_last()
    } else {
        l
    }
}

/// The lines of `s` from position `i` on, split as `str::lines` splits them:
/// at each `\n`, dropping a `\r` right before it; a final `\n` starts no
/// further line.
pub open spec fn lines_from(s: Seq<char>, i: int) -> Seq<Seq<char>>
    decreases s.len() - i,
{
    if i < 0 || i >= s.len() {
        Seq::empty()
    } else {
        let j = newline_at(s, i);
        proof {
            lemma_newline_at(s, i);
        }
        if j >= s.len() {
            seq![s.subrange(i, s.len() as int)]
        } else {
            seq![strip_cr(s.subrange(i, j))] + lines_from(s, j + 1)
        }
    }
}

/// The lines of a text (`str::lines`).
pub open spec fn text_lines(s: Seq<char>) -> Seq<Seq<char>> {
    lines_from(s, 0)
}

/// The `k`-th line (from 0) of the text, if it has that many lines.
pub fn nth_line(text: &Vec<char>, k: usize) -> (r: Option<Vec<char>>)
    ensures
        match r {
            Some(l) => k < text_lines(text@).len() && l@ == text_lines(text@)[k as int],
            None => k >= text_lines(text@).len(),
        },
{
    let ghost s = text@;
    let mut pos: usize = 0;
    let mut count: usize = 0;
    let ghost mut seen: Seq<Seq<char>> = Seq::empty();
    while pos < text.len()
        invariant
            pos <= text.len(),
            count == seen.len(),
            count <= k,
            s == text@,
            text_lines(s) == seen + lines_from(s, pos as int),
        decreases text.len() - pos,
    {
        let mut j: usize = pos;
        while j < text.len() && text[j] != '\n'
            invariant
                pos <= j <= text.len(),
                s == text@,
                newline_at(s, j as int) == newline_at(s, pos as int),
            decreases text.len() - j,
        {
            j = j + 1;
        }
        proof {
            lemma_newline_at(s, pos as int);
        }
        let ghost line = if j >= text.len() {
            s.subrange(pos as int, s.len() as int)
        } else {
            strip_cr(s.subrange(pos as int, j as int))
        };
        assert(lines_from(s, pos as int)[0] == line);
        if count == k {
            let mut l: Vec<char> = Vec::new();
            let mut m: usize = pos;
            while m < j
                invariant
                    pos <= m <= j <= text.len(),
                    s == text@,
                    l@ == s.subrange(pos as int, m as int),
                decreases j - m,
            {
                l.push(text[m]);
                m = m + 1;
                assert(l@ =~= s.subrange(pos as int, m as int));
            }
            if j < text.len() && l.len() > 0 && l[l.len() - 1] == '\r' {
                l.pop();
            }
            assert(l@ =~= line);
            assert((seen + lines_from(s, pos as int))[count as int] == line);
            return Some(l);
        }
        if j >= text.len() {
            proof {
                assert(lines_from(s, text.len() as int) =~= Seq::<Seq<char>>::empty());
                assert(text_lines(s) =~= seen.push(line));
                seen = seen.push(line);
            }
            count = count + 1;
            pos = j;
        } else {
            proof {
                assert(seen + lines_from(s, pos as int) =~= seen.push(line) + lines_from(s, j + 1));
                seen = seen.push(line);
            }
            count = count + 1;
            pos = j + 1;
        }
        if count > k {
            return None;
        }
    }
    assert(lines_from(s, pos as int) =~= Seq::<Seq<char>>::empty());
    None
}

/// The digits of the number literal at `line` and `column` (both from 1) of
/// the source, as they were written; empty when there is no such position.
pub open spec fn number_text(src: Seq<char>, line: usize, column: usize) -> Seq<char> {
    let ls = text_lines(src);
    if line == 0 || line > ls.len() || column == 0 || column - 1 > ls[line - 1].len() {
        Seq::empty()
    } else {
        let l = ls[line - 1];
        l.subrange(column - 1, digits_end(l, column - 1))
    }
}

/// Whether the line holds something other than whitespace before `column`.
pub open spec fn text_before_column(src: Seq<char>, line: usize, column: usize) -> bool {
    let ls = text_lines(src);
    &&& 1 <= line <= ls.len()
    &&& column >= 1
    &&& exists|i: int|
        0 <= i < column - 1 && i < ls[line - 1].len() && !is_whitespace_spec(
            #[trigger] ls[line - 1][i],
        )
}

/// Whether a comment at `line`/`column` follows code on its line.
pub fn has_non_whitespace_before_column(source: &Vec<char>, line: usize, column: usize) -> (r: bool)
    ensures
        r == text_before_column(source@, line, column),
{
    if line == 0 || column == 0 {
        return false;
    }
    match nth_line(source, line - 1) {
        None => false,
        Some(l) => {
            let mut i: usize = 0;
            while i < column - 1 && i < l.len()
                invariant
                    i <= l.len(),
                    line >= 1,
                    column >= 1,
                    line - 1 < text_lines(source@).len(),
                    l@ == text_lines(source@)[line - 1],
                    forall|k: int| 0 <= k < i ==> is_whitespace_spec(#[trigger] l@[k]),
                decreases l.len() - i,
            {
                if !is_whitespace(l[i]) {
                    assert(text_lines(source@)[line - 1][i as int] == l@[i as int]);
                    return true;
                }
                i = i + 1;
            }
            proof {
                assert forall|k: int| 0 <= k < column - 1 && k < l@.len() implies is_whitespace_spec(
                    #[trigger] text_lines(source@)[line - 1][k],
                ) by {
                    assert(l@[k] == text_lines(source@)[line - 1][k]);
                }
            }
            false
        },
    }
}

/// The original text of the number literal at `line`/`column` of the source.
pub fn extract_number_text(source: &Vec<char>, line: usize, column: usize) -> (r: String)
    ensures
        r@ == number_text(source@, line, column),
{
    if line == 0 || column == 0 {
        return String::new();
    }
    match nth_line(source, line - 1) {
        None => String::new(),
        Some(l) => {
            let start = column - 1;
            if start > l.len() {
                return String::new();
            }
            let mut end = start;
            while end < l.len() && (is_ascii_digit(l[end]) || is_myanmar_digit(l[end]))
                invariant
                    start <= end <= l.len(),
                    digits_end(l@, end as int) == digits_end(l@, start as int),
                decreases l.len() - end,
            {
                end = end + 1;
            }
            let mut out: Vec<char> = Vec::new();
            let mut m: usize = start;
            while m < end
                invariant
                    start <= m <= end <= l.len(),
                    out@ == l@.subrange(start as int, m as int),
                decreases end - m,
            {
                out.push(l[m]);
                m = m + 1;
                assert(out@ =~= l@.subrange(start as int, m as int));
            }
            crate::text::string_of(out.as_slice())
        },
    }
}

// ----------------------------------------------------------------------
// Formatting a source text

/// The tokens `toks` are those of `src`: every token up to and including
/// the first end of input.
pub open spec fn is_token_stream(src: Seq<char>, toks: Seq<Token>) -> bool {
    &&& toks.len() >= 1
    &&& toks.last().kind.tag_of() == TokenTag::Eof
    &&& forall|i: int| 0 <= i < toks.len() - 1 ==> toks[i].kind.tag_of() != TokenTag::Eof
    &&& forall|i: int| 0 <= i < toks.len() ==> token_matches(#[trigger] toks[i], nth_token(src, i as nat))
}

/// The comments among the tokens: line, column, whether code precedes it on
/// its line, and its text.
pub open spec fn comment_models(src: Seq<char>, toks: Seq<Token>) -> Seq<(usize, usize, bool, Seq<char>)>
    decreases toks.len(),
{
    if toks.len() == 0 {
        Seq::empty()
    } else {
        let rest = comment_models(src, toks.drop_last());
        let t = toks.last();
        match t.kind.model() {
            KindModel::Comment(c) => rest.push(
                (t.line, t.column, text_before_column(src, t.line, t.column), c),
            ),
            _ => rest,
        }
    }
}

/// The number literals among the tokens: value and original digits.
pub open spec fn number_literals(src: Seq<char>, toks: Seq<Token>) -> Seq<(i64, Seq<char>)>
    decreases toks.len(),
{
    if toks.len() == 0 {
        Seq::empty()
    } else {
        let rest = number_literals(src, toks.drop_last());
        let t = toks.last();
        match t.kind.model() {
            KindModel::Number(v) => rest.push((v, number_text(src, t.line, t.column))),
            _ => rest,
        }
    }
}

pub open spec fn comment_info_models(v: Seq<CommentInfo>) -> Seq<(usize, usize, bool, Seq<char>)> {
    Seq::new(v.len(), |i: int| (v[i].line, v[i].column, v[i].inline, v[i].text@))
}

/// The comments and number literals of a source, from its tokens.
pub fn collect_source_info(source: &Vec<char>, tokens: &Vec<Token>) -> (r: (
    Vec<CommentInfo>,
    Vec<NumberInfo>,
))
    ensures
        comment_info_models(r.0@) == comment_models(source@, tokens@),
        number_models(r.1@) == number_literals(source@, tokens@),
{
    let mut comments: Vec<CommentInfo> = Vec::new();
    let mut numbers: Vec<NumberInfo> = Vec::new();
    let mut i: usize = 0;
    while i < tokens.len()
        invariant
            i <= tokens.len(),
            comment_info_models(comments@) == comment_models(source@, tokens@.subrange(0, i as int)),
            number_models(numbers@) == number_literals(source@, tokens@.subrange(0, i as int)),
        decreases tokens.len() - i,
    {
        let ghost pre = tokens@.subrange(0, i as int);
        assert(tokens@.subrange(0, i + 1).drop_last() =~= pre);
        let tok = &tokens[i];
        match &tok.kind {
            TokenKind::Comment(text) => {
                let inline = has_non_whitespace_before_column(source, tok.line, tok.column);
                comments.push(
                    CommentInfo { line: tok.line, column: tok.column, inline, text: text.clone() },
                );
                assert(comment_info_models(comments@) =~= comment_models(
                    source@,
                    tokens@.subrange(0, i + 1),
                ));
            },
            TokenKind::Number(v) => {
                let original = extract_number_text(source, tok.line, tok.column);
                numbers.push(NumberInfo { value: *v, original });
                assert(number_models(numbers@) =~= number_literals(
                    source@,
                    tokens@.subrange(0, i + 1),
                ));
            },
            _ => {},
        }
        i = i + 1;
    }
    assert(tokens@.subrange(0, tokens.len() as int) =~= tokens@);
    (comments, numbers)
}

/// Whether `t` is the formatting of `source`: the program that the parser
/// reads from `source`, printed in the canonical layout, with the comments
/// of the source's tokens at the top and every number literal written with
/// the digits it had, ending in one line break.
pub open spec fn formats_to(source: Seq<char>, t: Seq<char>) -> bool {
    &&& ends_in_one_newline(t)
    &&& exists|p: Program, toks: Seq<Token>|
        #![trigger program_text(p, comment_texts_of(comment_models(source, toks)), number_literals(source, toks))]
        crate::ast::stmts_model(p.statements@) == parsed_statements(source) && is_token_stream(
            source,
            toks,
        ) && t == program_text(
            p,
            comment_texts_of(comment_models(source, toks)),
            number_literals(source, toks),
        )
}

/// The parser's errors on `source`, each as `[line:column] message`.
pub open spec fn parse_error_texts(source: Seq<char>) -> Seq<Seq<char>> {
    Seq::new(
        parse_errors(source).len(),
        |i: int| error_text(parse_errors(source)[i].line, parse_errors(source)[i].col, parse_errors(source)[i].message),
    )
}

/// The characters of each string.
pub open spec fn strings_model(v: Seq<String>) -> Seq<Seq<char>> {
    Seq::new(v.len(), |i: int| v[i]@)
}

/// Formats M-Lang source code: `Ok` with the formatted text, or `Err` with
/// the parser's error messages.
///
/// The formatted text is the program the parser read, printed in canonical
/// layout with the comments of the source at the top and every number
/// literal written with the digits it had in the source.
pub fn format_source(source: &str) -> (r: Result<String, Vec<String>>)
    ensures
        match r {
            Ok(t) => formats_to(source@, t@),
            Err(msgs) => strings_model(msgs@) == parse_error_texts(source@),
        },
        r is Ok <==> parse_errors(source@).len() == 0,
{
    let lexer = Lexer::new(source);
    let mut parser = Parser::new(lexer);
    let program = match parser.parse_program() {
        Some(p) => p,
        None => {
            let mut msgs: Vec<String> = Vec::new();
            msgs.push(crate::text::string_of(crate::text::chars_of("Failed to parse program.").as_slice()));
            return Err(msgs);
        },
    };
    let errors = parser.errors();
    assert(errs_model(errors@) == parse_errors(source@));
    if errors.len() > 0 {
        let mut msgs: Vec<String> = Vec::new();
        let mut i: usize = 0;
        while i < errors.len()
            invariant
                i <= errors.len(),
                msgs.len() == i,
                forall|k: int|
                    0 <= k < i ==> (#[trigger] msgs@[k])@ == error_text(
                        errors@[k].line,
                        errors@[k].column,
                        errors@[k].message@,
                    ),
            decreases errors.len() - i,
        {
            msgs.push(errors[i].to_text());
            i = i + 1;
        }
        assert(strings_model(msgs@) =~= parse_error_texts(source@));
        return Err(msgs);
    }
    let tokens = crate::lexer::tokenize_all(source);
    let chars = crate::text::chars_of(source);
    let (comments, numbers) = collect_source_info(&chars, &tokens);
    let formatted = format_program(&program, &comments, numbers);
    proof {
        lemma_program_text_ends_in_one_newline(
            program,
            comment_texts_of(comment_models(source@, tokens@)),
            number_literals(source@, tokens@),
        );
        assert(comment_texts(comments@) =~= comment_texts_of(comment_info_models(comments@)));
        assert(is_token_stream(source@, tokens@));
    }
    Ok(formatted)
}

/// The texts of comment models.
pub open spec fn comment_texts_of(v: Seq<(usize, usize, bool, Seq<char>)>) -> Seq<Seq<char>> {
    Seq::new(v.len(), |i: int| v[i].3)
}

proof fn lemma_trim_quotes_closing(m: Seq<char>)
    ensures
        trim_quotes(m + seq!['"']) == trim_quotes(m),
    decreases m.len(),
{
    if m.len() > 0 && m[0] == '"' {
        assert((m + seq!['"']).drop_first() =~= m.drop_first() + seq!['"']);
        lemma_trim_quotes_closing(m.drop_first());
    } else if m.len() == 0 {
        assert((m + seq!['"']).drop_first() =~= m);
    } else {
        assert((m + seq!['"']).drop_last() =~= m);
    }
}

/// Imports are written in quoted form: the import of a module name and of
/// the same name in double quotes format to the same `yu "name";` line.
pub proof fn law_imports_are_quoted(
    plain: String,
    quoted: String,
    span_a: Span,
    span_b: Span,
    indent: usize,
    nums: Seq<(i64, Seq<char>)>,
    idx: nat,
)
    requires
        quoted@ == seq!['"'] + plain@ + seq!['"'],
    ensures
        stmt_text(Statement::Import { module: plain, name_span: span_a }, indent, nums, idx) == stmt_text(
            Statement::Import { module: quoted, name_span: span_b },
            indent,
            nums,
            idx,
        ),
        stmt_text(Statement::Import { module: quoted, name_span: span_b }, indent, nums, idx).0 == indent_text(
            indent as nat,
        ) + "yu \""@ + trim_quotes(plain@) + seq!['"', ';'],
{
    assert(quoted@.drop_first() =~= plain@ + seq!['"']);
    lemma_trim_quotes_closing(plain@);
}

} // verus!
