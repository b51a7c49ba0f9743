//! The coordinate mapper: translates between rendered row/column positions
//! and logical line/character positions, over the vertical offset table and
//! the wrap tables built each frame. This is the basis for hyperlink
//! hit-testing, hover tracking, and search-result scrolling.

use crate::textutil::str_to_chars;
use crate::width::{cell_width, char_cell_width, seg_width};
use crate::wrap::{lemma_row_index_of, lemma_wrap_partition, row_for_char, row_index_of,
    rows_before, sat16, wrap_spec, LineWrap, RowRange};
use vstd::prelude::*;

verus! {

/// A hyperlink occupying the half-open character range
/// `[start_char, end_char)` of one logical line.
#[derive(Clone, Debug)]
pub struct LinkTarget {
    pub line_idx: usize,
    pub start_char: usize,
    pub end_char: usize,
    pub url: String,
}

/// How many entries of the offset table are `<= r`.
pub open spec fn num_le(offsets: Seq<u16>, r: u16) -> int
    decreases offsets.len(),
{
    if offsets.len() == 0 {
        0
    } else {
        num_le(offsets.drop_last(), r) + if offsets.last() <= r {
            1int
        } else {
            0int
        }
    }
}

/// A sorted offset table that is `<= r` up to `k` and `> r` from `k` on has
/// exactly `k` entries `<= r`.
pub proof fn lemma_num_le_split(offsets: Seq<u16>, r: u16, k: int)
    requires
        0 <= k <= offsets.len(),
        forall|j: int| 0 <= j < k ==> #[trigger] offsets[j] <= r,
        forall|j: int| k <= j < offsets.len() ==> #[trigger] offsets[j] > r,
    ensures
        num_le(offsets, r) == k,
    decreases offsets.len(),
{
    if offsets.len() > 0 {
        let pre = offsets.drop_last();
        if k == offsets.len() {
            lemma_num_le_split(pre, r, k - 1);
        } else {
            lemma_num_le_split(pre, r, k);
        }
    }
}

/// Which logical line a rendered row falls in: the greatest offset-table
/// entry `<= rendered` names the line, and the remainder is the row within
/// that line. A rendered row above the first entry maps to the top of line
/// 0; an empty table maps to nothing.
pub open spec fn locate_line(offsets: Seq<u16>, rendered: u16) -> Option<(int, u16)> {
    if offsets.len() == 0 {
        None
    } else {
        let k = num_le(offsets, rendered);
        if k == 0 {
            Some((0int, 0u16))
        } else {
            Some((k - 1, (rendered - offsets[k - 1]) as u16))
        }
    }
}

/// Binary search over the offset table for [`locate_line`].
#[verifier::loop_isolation(false)]
pub fn line_from_rendered(offsets: &Vec<u16>, rendered_line: u16) -> (r: Option<(usize, u16)>)
    requires
        forall|i: int, j: int|
            0 <= i <= j < offsets@.len() ==> #[trigger] offsets@[i] <= #[trigger] offsets@[j],
    ensures
        match r {
            Some((idx, row)) => locate_line(offsets@, rendered_line) == Some((idx as int, row)),
            None => locate_line(offsets@, rendered_line) is None,
        },
{
    if offsets.len() == 0 {
        return None;
    }
    let mut lo: usize = 0;
    let mut hi: usize = offsets.len();
    while lo < hi
        invariant
            lo <= hi <= offsets@.len(),
            forall|j: int| 0 <= j < lo ==> #[trigger] offsets@[j] <= rendered_line,
            forall|j: int| hi <= j < offsets@.len() ==> #[trigger] offsets@[j] > rendered_line,
        decreases hi - lo,
    {
        let mid = lo + (hi - lo) / 2;
        if offsets[mid] <= rendered_line {
            lo = mid + 1;
        } else {
            hi = mid;
        }
    }
    proof {
        lemma_num_le_split(offsets@, rendered_line, lo as int);
    }
    let idx: usize = if lo == 0 {
        0
    } else {
        lo - 1
    };
    Some((idx, rendered_line.saturating_sub(offsets[idx])))
}

/// Which character of the segment `[a, b)` of `s` covers display column
/// `col`: columns are consumed character by character, each character
/// occupying its effective width; a column past the segment's total width
/// maps to nothing.
pub open spec fn col_char(s: Seq<char>, a: int, b: int, col: int) -> Option<int>
    decreases b - a,
{
    if a >= b || a >= s.len() {
        None
    } else if col < cell_width(s[a]) {
        Some(a)
    } else {
        col_char(s, a + 1, b, col - cell_width(s[a]))
    }
}

/// The column of the character found by [`col_char`] is exactly the width
/// of the characters before it in the segment: resolving the first column
/// of a character position finds that position again, provided that
/// character occupies at least one column (a zero-width combining mark has
/// no column of its own to resolve).
pub proof fn lemma_col_char_round_trip(s: Seq<char>, a: int, b: int, c: int)
    requires
        a <= c < b,
        b <= s.len(),
        cell_width(s[c]) > 0,
    ensures
        col_char(s, a, b, seg_width(s, a, c) as int) == Some(c),
    decreases c - a,
{
    if a == c {
        assert(seg_width(s, a, a) == 0);
    } else {
        assert(seg_width(s, a, a + 1) == seg_width(s, a, a) + cell_width(s[a]));
        crate::width::lemma_seg_width_split(s, a, a + 1, c);
        lemma_col_char_round_trip(s, a + 1, b, c);
    }
}

/// Column-to-character resolution within one wrapped row: walks the row's
/// character range accumulating display widths.
#[verifier::loop_isolation(false)]
pub fn char_index_at_col(line_text: &str, row_range: &RowRange, column: usize) -> (r: Option<
    usize,
>)
    ensures
        match r {
            Some(i) => col_char(
                line_text@,
                row_range.start as int,
                row_range.end as int,
                column as int,
            ) == Some(i as int),
            None => col_char(
                line_text@,
                row_range.start as int,
                row_range.end as int,
                column as int,
            ) is None,
        },
{
    if row_range.start >= row_range.end {
        return None;
    }
    let chars = str_to_chars(line_text);
    let n = chars.len();
    let mut i: usize = row_range.start;
    let mut used: usize = 0;
    while i < n && i < row_range.end
        invariant
            row_range.start <= i,
            used <= column,
            col_char(line_text@, row_range.start as int, row_range.end as int, column as int)
                == col_char(line_text@, i as int, row_range.end as int, (column - used) as int),
        decreases n - i,
    {
        let w = char_cell_width(chars[i]);
        if column - used < w {
            return Some(i);
        }
        used = used + w;
        i = i + 1;
    }
    None
}

/// The first link in converter order that sits on line `li` and whose
/// half-open character range contains `c`.
pub open spec fn first_link_at(links: Seq<LinkTarget>, li: int, c: int) -> Option<Seq<char>>
    decreases links.len(),
{
    if links.len() == 0 {
        None
    } else if links[0].line_idx == li && links[0].start_char <= c < links[0].end_char {
        Some(links[0].url@)
    } else {
        first_link_at(links.drop_first(), li, c)
    }
}

/// Full hit-test of a rendered position: resolve the rendered row to a
/// logical line and row, the column to a character index, and that
/// character to the link covering it, if any.
pub open spec fn link_at_position_spec(
    links: Seq<LinkTarget>,
    wraps: Seq<LineWrap>,
    offsets: Seq<u16>,
    lines_text: Seq<Seq<char>>,
    rendered: u16,
    column: u16,
) -> Option<Seq<char>> {
    match locate_line(offsets, rendered) {
        None => None,
        Some((li, row)) => if li < wraps.len() && row < wraps[li].rows@.len() && li
            < lines_text.len() {
            let rr = wraps[li].rows@[row as int];
            match col_char(lines_text[li], rr.start as int, rr.end as int, column as int) {
                None => None,
                Some(c) => first_link_at(links, li, c),
            }
        } else {
            None
        },
    }
}

/// Resolve the link, if any, under a rendered row/column position.
#[verifier::loop_isolation(false)]
pub fn link_at_position(
    links: &Vec<LinkTarget>,
    wraps: &Vec<LineWrap>,
    offsets: &Vec<u16>,
    lines_text: &Vec<String>,
    rendered_line: u16,
    column: u16,
) -> (r: Option<String>)
    requires
        forall|i: int, j: int|
            0 <= i <= j < offsets@.len() ==> #[trigger] offsets@[i] <= #[trigger] offsets@[j],
    ensures
        match r {
            Some(u) => link_at_position_spec(
                links@,
                wraps@,
                offsets@,
                lines_text@.map_values(|l: String| l@),
                rendered_line,
                column,
            ) == Some(u@),
            None => link_at_position_spec(
                links@,
                wraps@,
                offsets@,
                lines_text@.map_values(|l: String| l@),
                rendered_line,
                column,
            ) is None,
        },
{
    let located = line_from_rendered(offsets, rendered_line);
    match located {
        None => None,
        Some((line_idx, row)) => {
            if line_idx >= wraps.len() || line_idx >= lines_text.len() {
                return None;
            }
            let wrap = &wraps[line_idx];
            if row as usize >= wrap.rows.len() {
                return None;
            }
            let row_range = wrap.rows[row as usize];
            match char_index_at_col(lines_text[line_idx].as_str(), &row_range, column as usize) {
                None => None,
                Some(char_index) => {
                    proof {
                        assert(links@.skip(0) =~= links@);
                    }
                    let mut k: usize = 0;
                    while k < links.len()
                        invariant
                            k <= links@.len(),
                            first_link_at(links@, line_idx as int, char_index as int)
                                == first_link_at(
                                links@.skip(k as int),
                                line_idx as int,
                                char_index as int,
                            ),
                        decreases links@.len() - k,
                    {
                        let link = &links[k];
                        proof {
                            assert(links@.skip(k as int)[0] == links@[k as int]);
                            assert(links@.skip(k as int).drop_first() =~= links@.skip(k + 1));
                        }
                        if link.line_idx == line_idx && char_index >= link.start_char && char_index
                            < link.end_char {
                            return Some(link.url.clone());
                        }
                        k = k + 1;
                    }
                    None
                },
            }
        },
    }
}

/// The absolute rendered row of the row of line `link.line_idx` that
/// contains the link's first character: the line's vertical offset plus the
/// row index within the line, saturated to `u16`.
pub open spec fn link_row_pos(wraps: Seq<LineWrap>, offsets: Seq<u16>, link: LinkTarget) -> u16 {
    let li = link.line_idx as int;
    let row = match row_index_of(wraps[li].rows@, link.start_char as int) {
        Some(i) => i,
        None => 0,
    };
    sat16(offsets[li] as int + (if row > 0xFFFF {
        0xFFFF as int
    } else {
        row
    }))
}

/// The first link (in converter order) whose resolved row is at or below
/// the scroll position.
pub open spec fn scroll_candidate(
    links: Seq<LinkTarget>,
    wraps: Seq<LineWrap>,
    offsets: Seq<u16>,
    scroll: u16,
) -> Option<Seq<char>>
    decreases links.len(),
{
    if links.len() == 0 {
        None
    } else if links[0].line_idx < offsets.len() && links[0].line_idx < wraps.len() && link_row_pos(
        wraps,
        offsets,
        links[0],
    ) >= scroll {
        Some(links[0].url@)
    } else {
        scroll_candidate(links.drop_first(), wraps, offsets, scroll)
    }
}

/// The link to open for the current scroll position: the first link at or
/// below the top of the viewport, falling back to the first link of the
/// document; nothing when the document has no links.
pub open spec fn link_at_scroll_spec(
    links: Seq<LinkTarget>,
    wraps: Seq<LineWrap>,
    offsets: Seq<u16>,
    scroll: u16,
) -> Option<Seq<char>> {
    if links.len() == 0 {
        None
    } else {
        match scroll_candidate(links, wraps, offsets, scroll) {
            Some(u) => Some(u),
            None => Some(links[0].url@),
        }
    }
}

/// Pick the link to open for the current scroll position.
#[verifier::loop_isolation(false)]
pub fn link_at_scroll(
    links: &Vec<LinkTarget>,
    wraps: &Vec<LineWrap>,
    offsets: &Vec<u16>,
    scroll: u16,
) -> (r: Option<String>)
    ensures
        match r {
            Some(u) => link_at_scroll_spec(links@, wraps@, offsets@, scroll) == Some(u@),
            None => link_at_scroll_spec(links@, wraps@, offsets@, scroll) is None,
        },
{
    if links.len() == 0 {
        return None;
    }
    proof {
        assert(links@.skip(0) =~= links@);
    }
    let mut k: usize = 0;
    while k < links.len()
        invariant
            k <= links@.len(),
            links@.len() > 0,
            scroll_candidate(links@, wraps@, offsets@, scroll) == scroll_candidate(
                links@.skip(k as int),
                wraps@,
                offsets@,
                scroll,
            ),
        decreases links@.len() - k,
    {
        let link = &links[k];
        proof {
            assert(links@.skip(k as int)[0] == links@[k as int]);
            assert(links@.skip(k as int).drop_first() =~= links@.skip(k + 1));
        }
        if link.line_idx < offsets.len() && link.line_idx < wraps.len() {
            let row: usize = match row_for_char(&wraps[link.line_idx], link.start_char) {
                Some(i) => i,
                None => 0,
            };
            let row16: u16 = if row > 0xFFFF {
                0xFFFF
            } else {
                row as u16
            };
            let pos = offsets[link.line_idx].saturating_add(row16);
            if pos >= scroll {
                return Some(link.url.clone());
            }
        }
        k = k + 1;
    }
    Some(links[0].url.clone())
}

/// Total rendered rows never shrink as lines are added: the vertical
/// offset table is non-decreasing.
pub proof fn lemma_rows_before_nondecreasing(lines: Seq<Seq<char>>, budget: int, i: int, j: int)
    requires
        i <= j,
    ensures
        rows_before(lines, budget, i) <= rows_before(lines, budget, j),
    decreases j - i,
{
    if i < j {
        lemma_rows_before_nondecreasing(lines, budget, i, j - 1);
    }
}

/// In a sorted offset table, the entries `<= r` are exactly an initial
/// segment of length `num_le`.
pub proof fn lemma_num_le_sorted(offsets: Seq<u16>, r: u16)
    requires
        forall|i: int, j: int|
            0 <= i <= j < offsets.len() ==> #[trigger] offsets[i] <= #[trigger] offsets[j],
    ensures
        0 <= num_le(offsets, r) <= offsets.len(),
        forall|j: int| 0 <= j < num_le(offsets, r) ==> #[trigger] offsets[j] <= r,
        forall|j: int| num_le(offsets, r) <= j < offsets.len() ==> #[trigger] offsets[j] > r,
    decreases offsets.len(),
{
    if offsets.len() > 0 {
        let pre = offsets.drop_last();
        lemma_num_le_sorted(pre, r);
        let k = num_le(pre, r);
        assert(forall|j: int| 0 <= j < pre.len() ==> #[trigger] pre[j] == offsets[j]);
        if offsets.last() <= r {
            if k < pre.len() {
                assert(pre[k] == offsets[k]);
                assert(offsets[k] <= offsets[offsets.len() - 1]);
                assert(false);
            }
            assert(num_le(offsets, r) == pre.len() + 1);
            assert forall|j: int| 0 <= j < num_le(offsets, r) implies #[trigger] offsets[j]
                <= r by {
                if j < pre.len() {
                    assert(pre[j] <= r);
                }
            }
        } else {
            assert(num_le(offsets, r) == k);
            assert forall|j: int| 0 <= j < num_le(offsets, r) implies #[trigger] offsets[j]
                <= r by {
                assert(pre[j] <= r);
            }
            assert forall|j: int| k <= j < offsets.len() implies #[trigger] offsets[j] > r by {
                if j < pre.len() {
                    assert(pre[j] > r);
                }
            }
        }
    }
}

/// `locate_row` is the exact inverse of accumulating row counts: when the
/// whole document's rendered row total fits the offset table's range, every
/// rendered row `r` resolves to the unique line whose offset range contains
/// `r`, and to `r`'s distance from that line's offset.
pub proof fn lemma_locate_row_inverse(lines: Seq<Seq<char>>, budget: int, offsets: Seq<u16>, r: u16)
    requires
        offsets.len() == lines.len(),
        lines.len() > 0,
        forall|i: int|
            0 <= i < offsets.len() ==> #[trigger] offsets[i] == sat16(
                rows_before(lines, budget, i) as int,
            ),
        rows_before(lines, budget, lines.len() as int) <= u16::MAX,
        (r as int) < rows_before(lines, budget, lines.len() as int),
    ensures
        locate_line(offsets, r) matches Some((idx, row)) && 0 <= idx < lines.len() && rows_before(
            lines,
            budget,
            idx,
        ) <= r as int && (r as int) < rows_before(lines, budget, idx + 1) && row as int == r
            - rows_before(lines, budget, idx),
{
    assert forall|i: int| 0 <= i < offsets.len() implies #[trigger] offsets[i] == rows_before(
        lines,
        budget,
        i,
    ) by {
        lemma_rows_before_nondecreasing(lines, budget, i, lines.len() as int);
    }
    assert forall|i: int, j: int| 0 <= i <= j < offsets.len() implies #[trigger] offsets[i]
        <= #[trigger] offsets[j] by {
        lemma_rows_before_nondecreasing(lines, budget, i, j);
    }
    lemma_num_le_sorted(offsets, r);
    let k = num_le(offsets, r);
    assert(rows_before(lines, budget, 0) == 0);
    assert(offsets[0] <= r);
    if k == 0 {
        assert(offsets[0] > r);
        assert(false);
    }
    let idx = k - 1;
    if k < offsets.len() {
        assert(offsets[k] > r);
    }
}

/// Membership in a wrap partition: every character position of the line is
/// covered by some row.
pub proof fn lemma_partition_coverage(rows: Seq<RowRange>, len: int, c: int)
    requires
        rows.len() >= 1,
        rows[0].start == 0,
        rows.last().end == len,
        forall|i: int| 0 <= i < rows.len() ==> #[trigger] rows[i].start <= rows[i].end,
        forall|i: int|
            0 <= i < rows.len() - 1 ==> #[trigger] rows[i].end == rows[i + 1].start,
        0 <= c < len,
    ensures
        exists|i: int| 0 <= i < rows.len() && #[trigger] rows[i].start <= c < rows[i].end,
    decreases rows.len(),
{
    let last = rows[rows.len() - 1];
    if last.start <= c {
        assert(rows[rows.len() - 1].start <= c < rows[rows.len() - 1].end);
    } else {
        let pre = rows.drop_last();
        assert(pre.len() == rows.len() - 1);
        assert(rows.len() >= 2);
        assert(pre.last() == rows[rows.len() - 2]);
        assert(rows[rows.len() - 2].end == rows[rows.len() - 1].start);
        lemma_partition_coverage(pre, last.start as int, c);
        let i = choose|i: int| 0 <= i < pre.len() && #[trigger] pre[i].start <= c < pre[i].end;
        assert(rows[i].start <= c < rows[i].end);
    }
}

/// Round-trip of link resolution: the first character of a link range is
/// found in exactly one wrapped row, and resolving that row's column for
/// the character leads back to the same character index, which lies inside
/// the link's half-open range. The link's first character must occupy at
/// least one column: a link starting on a zero-width combining mark has no
/// first column of its own.
pub proof fn lemma_link_round_trip(s: Seq<char>, budget: int, sc: int, ec: int)
    requires
        budget >= 1,
        0 <= sc < ec <= s.len() <= usize::MAX,
        cell_width(s[sc]) > 0,
    ensures
        row_index_of(wrap_spec(s, budget), sc) matches Some(i) && {
            let rr = wrap_spec(s, budget)[i];
            rr.start <= sc < rr.end && col_char(
                s,
                rr.start as int,
                rr.end as int,
                seg_width(s, rr.start as int, sc) as int,
            ) == Some(sc) && sc < ec
        },
{
    let rows = wrap_spec(s, budget);
    lemma_wrap_partition(s, budget);
    lemma_partition_coverage(rows, s.len() as int, sc);
    lemma_row_index_of(rows, sc);
    match row_index_of(rows, sc) {
        Some(i) => {
            let rr = rows[i];
            lemma_col_char_round_trip(s, rr.start as int, rr.end as int, sc);
        },
        None => {
            let w = choose|i: int|
                0 <= i < rows.len() && #[trigger] rows[i].start <= sc < rows[i].end;
            assert(false);
        },
    }
}

} // verus!
