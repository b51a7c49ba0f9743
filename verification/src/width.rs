//! Per-character display width and whitespace classification, the basis for
//! all column arithmetic in the wrap engine and the coordinate mapper.

use vstd::prelude::*;

verus! {

/// The number of terminal columns the width table assigns to a character
/// (`None` for a control character). A pure function of the character.
pub uninterp spec fn unicode_width_of(c: char) -> Option<usize>;

/// Whether a character has the Unicode `White_Space` property. A pure
/// function of the character.
pub uninterp spec fn whitespace_char(c: char) -> bool;

/// Relies on `unicode_width::UnicodeWidthChar::width`: the displayed width
/// of a character in columns, or `None` for a control character. A table
/// lookup that depends on the character alone; the table stores the width
/// as a byte, so a defined width is at most 255.
#[verifier::external_body]
fn lookup_width(c: char) -> (w: Option<usize>)
    ensures
        w == unicode_width_of(c),
        w matches Some(n) ==> n <= 255,
{
    unicode_width::UnicodeWidthChar::width(c)
}

/// Relies on `char::is_whitespace`: whether the character has the Unicode
/// `White_Space` property. A pure classification of the character alone.
#[verifier::external_body]
pub fn is_whitespace_char(c: char) -> (r: bool)
    ensures
        r == whitespace_char(c),
{
    c.is_whitespace()
}

/// Effective width of a character in a rendered row: the table width as
/// given, so combining marks contribute no columns but still occupy index
/// slots; only a character with no defined width is treated as one column,
/// never zero, so a row cannot absorb unbounded undefined text.
pub open spec fn cell_width(c: char) -> nat {
    match unicode_width_of(c) {
        Some(n) => n as nat,
        None => 1,
    }
}

/// Executable counterpart of [`cell_width`].
pub fn char_cell_width(c: char) -> (w: usize)
    ensures
        w == cell_width(c),
        w <= 255,
{
    match lookup_width(c) {
        Some(n) => n,
        None => 1,
    }
}

/// Width of a character as the table gives it: zero for combining marks
/// and for control characters.
pub open spec fn table_width(c: char) -> nat {
    match unicode_width_of(c) {
        Some(n) => n as nat,
        None => 0,
    }
}

/// Executable counterpart of [`table_width`].
pub fn char_table_width(c: char) -> (w: usize)
    ensures
        w == table_width(c),
        w <= 255,
{
    match lookup_width(c) {
        Some(n) => n,
        None => 0,
    }
}

/// Table display width of a whole character sequence.
pub open spec fn text_width(s: Seq<char>) -> nat
    decreases s.len(),
{
    if s.len() == 0 {
        0
    } else {
        text_width(s.drop_last()) + table_width(s.last())
    }
}

/// Display width of the character range `[a, b)` of `s`: the sum of the
/// effective widths of its characters.
pub open spec fn seg_width(s: Seq<char>, a: int, b: int) -> nat
    decreases b - a,
{
    if a >= b {
        0
    } else {
        seg_width(s, a, b - 1) + cell_width(s[b - 1])
    }
}

/// Segment widths add over a split point.
pub proof fn lemma_seg_width_split(s: Seq<char>, a: int, b: int, c: int)
    requires
        a <= b <= c,
    ensures
        seg_width(s, a, c) == seg_width(s, a, b) + seg_width(s, b, c),
    decreases c - b,
{
    if b < c {
        lemma_seg_width_split(s, a, b, c - 1);
    }
}

} // verus!
