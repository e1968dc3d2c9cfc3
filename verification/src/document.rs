//! The text of an open document, held in a `ropey::Rope`, and its lines.
use vstd::prelude::*;

use ropey::Rope;

verus! {

/// `ropey::Rope`, a text held in chunks; Verus sees nothing inside it but
/// what `rope_text` names.
#[verifier::external_type_specification]
#[verifier::external_body]
pub struct ExRope(Rope);

/// The characters a rope holds.
pub uninterp spec fn rope_text(r: Rope) -> Seq<char>;

/// Whether a character ends a line: line feed, carriage return, vertical
/// tab, form feed, next line, line separator or paragraph separator (a
/// carriage return followed by a line feed ends one line).
pub open spec fn is_line_break(c: char) -> bool {
    c == '\n' || c == '\r' || c == '\u{0B}' || c == '\u{0C}' || c == '\u{85}' || c == '\u{2028}' || c
        == '\u{2029}'
}

/// The lines of the text that follows a line begun with `cur`: each line
/// keeps the break that ends it, and the text after the last break is the
/// last line, empty when the text ends with a break.
pub open spec fn split_lines(t: Seq<char>, cur: Seq<char>) -> Seq<Seq<char>>
    decreases t.len(),
{
    if t.len() == 0 {
        seq![cur]
    } else if t[0] == '\r' && t.len() > 1 && t[1] == '\n' {
        seq![cur + seq!['\r', '\n']] + split_lines(t.subrange(2, t.len() as int), Seq::empty())
    } else if is_line_break(t[0]) {
        seq![cur.push(t[0])] + split_lines(t.drop_first(), Seq::empty())
    } else {
        split_lines(t.drop_first(), cur.push(t[0]))
    }
}

/// The lines of a text as a rope counts them.
pub open spec fn text_lines(t: Seq<char>) -> Seq<Seq<char>> {
    split_lines(t, Seq::empty())
}

/// `Rope`'s `to_string`: the text the rope holds.
#[verifier::external_body]
pub(crate) fn rope_to_string(r: &Rope) -> (s: String)
    ensures
        s@ == rope_text(*r),
{
    r.to_string()
}

/// `Rope::len_lines`: the number of lines, one more than the number of line
/// breaks.
#[verifier::external_body]
pub(crate) fn rope_len_lines(r: &Rope) -> (n: usize)
    ensures
        n == text_lines(rope_text(*r)).len(),
{
    r.len_lines()
}

/// `Rope::line` and `to_string`: the text of a line, with its line break.
#[verifier::external_body]
pub(crate) fn rope_line(r: &Rope, line_idx: usize) -> (s: String)
    requires
        line_idx < text_lines(rope_text(*r)).len(),
    ensures
        s@ == text_lines(rope_text(*r))[line_idx as int],
{
    r.line(line_idx).to_string()
}

/// `Rope::line` and `len_chars`: the number of characters of a line, its
/// line break included.
#[verifier::external_body]
pub(crate) fn rope_line_len_chars(r: &Rope, line_idx: usize) -> (n: usize)
    requires
        line_idx < text_lines(rope_text(*r)).len(),
    ensures
        n == text_lines(rope_text(*r))[line_idx as int].len(),
{
    r.line(line_idx).len_chars()
}

} // verus!
