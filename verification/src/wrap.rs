//! The wrap engine: turns one logical line of text into an ordered list of
//! half-open character ranges, one per rendered row, so that each row fits
//! within a column budget. Whole whitespace/non-whitespace runs are packed
//! greedily; a run that alone exceeds the budget is split character by
//! character.

use crate::textutil::str_to_chars;
use crate::width::{cell_width, char_cell_width, is_whitespace_char, lemma_seg_width_split,
    seg_width, whitespace_char};
use vstd::prelude::*;

verus! {

/// One rendered row of a wrapped logical line, as a half-open character range.
#[derive(Clone, Copy, Debug, PartialEq, Eq, Structural)]
pub struct RowRange {
    pub start: usize,
    pub end: usize,
}

/// The ordered rows of one wrapped logical line.
#[derive(Clone, Debug)]
pub struct LineWrap {
    pub rows: Vec<RowRange>,
}

/// End of the maximal run of same-class (whitespace vs. non-whitespace)
/// characters that contains position `p`.
pub open spec fn run_end(s: Seq<char>, p: int) -> int
    decreases s.len() - p,
{
    if p + 1 >= s.len() {
        s.len() as int
    } else if whitespace_char(s[p + 1]) != whitespace_char(s[p]) {
        p + 1
    } else {
        run_end(s, p + 1)
    }
}

/// A run extends past its starting position and ends within the line.
pub proof fn lemma_run_end_range(s: Seq<char>, p: int)
    requires
        p < s.len(),
    ensures
        p < run_end(s, p) <= s.len(),
    decreases s.len() - p,
{
    if p + 1 < s.len() && whitespace_char(s[p + 1]) == whitespace_char(s[p]) {
        lemma_run_end_range(s, p + 1);
    }
}

/// Greatest end of a hard-split chunk: starting from the candidate end `e`,
/// extend while the chunk `[p, e)` still fits the budget, never past the
/// run end `te`.
pub open spec fn grow_chunk(s: Seq<char>, budget: int, p: int, te: int, e: int) -> int
    decreases te - e,
{
    if e >= te {
        te
    } else if seg_width(s, p, e + 1) <= budget {
        grow_chunk(s, budget, p, te, e + 1)
    } else {
        e
    }
}

pub proof fn lemma_grow_chunk(s: Seq<char>, budget: int, p: int, te: int, e: int)
    requires
        p < e <= te,
    ensures
        e <= grow_chunk(s, budget, p, te, e) <= te,
        seg_width(s, p, grow_chunk(s, budget, p, te, e)) <= budget || grow_chunk(
            s,
            budget,
            p,
            te,
            e,
        ) == e,
        grow_chunk(s, budget, p, te, e) < te ==> seg_width(
            s,
            p,
            grow_chunk(s, budget, p, te, e) + 1,
        ) > budget,
    decreases te - e,
{
    if e < te && seg_width(s, p, e + 1) <= budget {
        lemma_grow_chunk(s, budget, p, te, e + 1);
    }
}

/// Greatest row end reachable by appending whole runs: starting from the
/// row `[p, b)` that already fits, append the next run while the widened
/// row still fits the budget.
pub open spec fn grow_tokens(s: Seq<char>, budget: int, p: int, b: int) -> int
    decreases s.len() - b,
    via grow_tokens_decreases
{
    if b >= s.len() {
        s.len() as int
    } else if seg_width(s, p, run_end(s, b)) <= budget {
        grow_tokens(s, budget, p, run_end(s, b))
    } else {
        b
    }
}

#[via_fn]
proof fn grow_tokens_decreases(s: Seq<char>, budget: int, p: int, b: int) {
    if b < s.len() {
        lemma_run_end_range(s, b);
    }
}

pub proof fn lemma_grow_tokens(s: Seq<char>, budget: int, p: int, b: int)
    requires
        p <= b <= s.len(),
        seg_width(s, p, b) <= budget,
    ensures
        b <= grow_tokens(s, budget, p, b) <= s.len(),
        seg_width(s, p, grow_tokens(s, budget, p, b)) <= budget,
        grow_tokens(s, budget, p, b) < s.len() ==> seg_width(
            s,
            p,
            run_end(s, grow_tokens(s, budget, p, b)),
        ) > budget,
    decreases s.len() - b,
{
    if b < s.len() {
        lemma_run_end_range(s, b);
        if seg_width(s, p, run_end(s, b)) <= budget {
            lemma_grow_tokens(s, budget, p, run_end(s, b));
        }
    }
}

/// End of the rendered row that starts at position `p`: if the run
/// containing `p` fits the budget from `p`, whole runs are packed greedily;
/// otherwise the run is split at the widest prefix that fits (at least one
/// character).
pub open spec fn row_end(s: Seq<char>, budget: int, p: int) -> int {
    let te = run_end(s, p);
    if seg_width(s, p, te) <= budget {
        grow_tokens(s, budget, p, te)
    } else {
        grow_chunk(s, budget, p, te, p + 1)
    }
}

/// Every row spans at least one character and ends within the line, and its
/// width fits the budget unless it is a single character wider than the
/// whole budget.
pub proof fn lemma_row_end(s: Seq<char>, budget: int, p: int)
    requires
        0 <= p < s.len(),
    ensures
        p < row_end(s, budget, p) <= s.len(),
        seg_width(s, p, row_end(s, budget, p)) <= budget || (row_end(s, budget, p) == p + 1
            && cell_width(s[p]) > budget),
{
    let te = run_end(s, p);
    lemma_run_end_range(s, p);
    if seg_width(s, p, te) <= budget {
        lemma_grow_tokens(s, budget, p, te);
    } else {
        lemma_grow_chunk(s, budget, p, te, p + 1);
        assert(seg_width(s, p, p + 1) == seg_width(s, p, p) + cell_width(s[p]));
    }
}

/// The rows of the non-empty suffix of `s` that starts at `p`.
pub open spec fn wrap_rows_from(s: Seq<char>, budget: int, p: int) -> Seq<RowRange>
    decreases s.len() - p,
    via wrap_rows_from_decreases
{
    if p >= s.len() {
        Seq::empty()
    } else {
        seq![RowRange { start: p as usize, end: row_end(s, budget, p) as usize }]
            + wrap_rows_from(s, budget, row_end(s, budget, p))
    }
}

#[via_fn]
proof fn wrap_rows_from_decreases(s: Seq<char>, budget: int, p: int) {
    if 0 <= p < s.len() {
        lemma_row_end(s, budget, p);
    } else if p < 0 && p < s.len() {
        lemma_run_end_range(s, p);
        let te = run_end(s, p);
        if seg_width(s, p, te) <= budget {
            lemma_grow_tokens_low(s, budget, p, te);
        } else {
            lemma_grow_chunk(s, budget, p, te, p + 1);
        }
    }
}

proof fn lemma_grow_tokens_low(s: Seq<char>, budget: int, p: int, b: int)
    requires
        p < b <= s.len(),
    ensures
        b <= grow_tokens(s, budget, p, b) <= s.len(),
    decreases s.len() - b,
{
    if b < s.len() {
        lemma_run_end_range(s, b);
        if seg_width(s, p, run_end(s, b)) <= budget {
            lemma_grow_tokens_low(s, budget, p, run_end(s, b));
        }
    }
}

/// The wrap of a whole logical line: an empty line yields exactly one
/// zero-width row, so every logical line maps to at least one rendered row.
pub open spec fn wrap_spec(s: Seq<char>, budget: int) -> Seq<RowRange> {
    if s.len() == 0 {
        seq![RowRange { start: 0, end: 0 }]
    } else {
        wrap_rows_from(s, budget, 0)
    }
}

proof fn lemma_wrap_from_partition(s: Seq<char>, budget: int, p: int)
    requires
        0 <= p < s.len() <= usize::MAX,
    ensures
        wrap_rows_from(s, budget, p).len() >= 1,
        wrap_rows_from(s, budget, p)[0].start == p,
        wrap_rows_from(s, budget, p).last().end == s.len(),
        forall|i: int|
            0 <= i < wrap_rows_from(s, budget, p).len() ==> p
                <= #[trigger] wrap_rows_from(s, budget, p)[i].start < wrap_rows_from(
                s,
                budget,
                p,
            )[i].end <= s.len(),
        forall|i: int|
            0 <= i < wrap_rows_from(s, budget, p).len() - 1 ==> #[trigger] wrap_rows_from(
                s,
                budget,
                p,
            )[i].end == wrap_rows_from(s, budget, p)[i + 1].start,
    decreases s.len() - p,
{
    let e = row_end(s, budget, p);
    lemma_row_end(s, budget, p);
    if e < s.len() {
        lemma_wrap_from_partition(s, budget, e);
    }
}

/// The rows of a wrapped line partition `[0, char_len)` exactly: the first
/// row starts at 0, each row ends where the next begins, the last row ends
/// at the line length, and every row of a non-empty line is non-empty. An
/// empty line yields exactly one zero-width row.
pub proof fn lemma_wrap_partition(s: Seq<char>, budget: int)
    requires
        s.len() <= usize::MAX,
    ensures
        wrap_spec(s, budget).len() >= 1,
        wrap_spec(s, budget)[0].start == 0,
        wrap_spec(s, budget).last().end == s.len(),
        forall|i: int|
            0 <= i < wrap_spec(s, budget).len() ==> #[trigger] wrap_spec(s, budget)[i].start
                <= wrap_spec(s, budget)[i].end <= s.len(),
        forall|i: int|
            0 <= i < wrap_spec(s, budget).len() - 1 ==> #[trigger] wrap_spec(s, budget)[i].end
                == wrap_spec(s, budget)[i + 1].start,
        s.len() > 0 ==> forall|i: int|
            0 <= i < wrap_spec(s, budget).len() ==> #[trigger] wrap_spec(s, budget)[i].start
                < wrap_spec(s, budget)[i].end,
{
    if s.len() > 0 {
        lemma_wrap_from_partition(s, budget, 0);
    }
}

proof fn lemma_wrap_from_fit(s: Seq<char>, budget: int, p: int)
    requires
        0 <= p < s.len() <= usize::MAX,
    ensures
        forall|i: int|
            0 <= i < wrap_rows_from(s, budget, p).len() ==> {
                let r = #[trigger] wrap_rows_from(s, budget, p)[i];
                seg_width(s, r.start as int, r.end as int) <= budget || (r.end == r.start + 1
                    && cell_width(s[r.start as int]) > budget)
            },
    decreases s.len() - p,
{
    let e = row_end(s, budget, p);
    lemma_row_end(s, budget, p);
    if e < s.len() {
        lemma_wrap_from_fit(s, budget, e);
    }
    let rows = wrap_rows_from(s, budget, p);
    assert forall|i: int| 0 <= i < rows.len() implies {
        let r = #[trigger] rows[i];
        seg_width(s, r.start as int, r.end as int) <= budget || (r.end == r.start + 1
            && cell_width(s[r.start as int]) > budget)
    } by {
        if i > 0 {
            assert(rows[i] == wrap_rows_from(s, budget, e)[i - 1]);
        }
    }
}

/// Every row's display width fits the column budget, except a row made of
/// a single character whose width alone exceeds the budget.
pub proof fn lemma_wrap_rows_fit(s: Seq<char>, budget: int)
    requires
        budget >= 1,
        s.len() <= usize::MAX,
    ensures
        forall|i: int|
            0 <= i < wrap_spec(s, budget).len() ==> {
                let r = #[trigger] wrap_spec(s, budget)[i];
                seg_width(s, r.start as int, r.end as int) <= budget || (r.end == r.start + 1
                    && cell_width(s[r.start as int]) > budget)
            },
{
    if s.len() > 0 {
        lemma_wrap_from_fit(s, budget, 0);
    }
}

#[verifier::loop_isolation(false)]
fn whitespace_flags(chars: &Vec<char>) -> (ws: Vec<bool>)
    ensures
        ws@.len() == chars@.len(),
        forall|i: int| 0 <= i < chars@.len() ==> ws@[i] == whitespace_char(chars@[i]),
{
    let mut ws: Vec<bool> = Vec::new();
    let mut i: usize = 0;
    while i < chars.len()
        invariant
            i <= chars@.len(),
            ws@.len() == i,
            forall|j: int| 0 <= j < i ==> ws@[j] == whitespace_char(chars@[j]),
        decreases chars@.len() - i,
    {
        ws.push(is_whitespace_char(chars[i]));
        i = i + 1;
    }
    ws
}

#[verifier::loop_isolation(false)]
fn cell_widths(chars: &Vec<char>) -> (w: Vec<usize>)
    ensures
        w@.len() == chars@.len(),
        forall|i: int| 0 <= i < chars@.len() ==> w@[i] == cell_width(chars@[i]),
{
    let mut w: Vec<usize> = Vec::new();
    let mut i: usize = 0;
    while i < chars.len()
        invariant
            i <= chars@.len(),
            w@.len() == i,
            forall|j: int| 0 <= j < i ==> w@[j] == cell_width(chars@[j]),
        decreases chars@.len() - i,
    {
        w.push(char_cell_width(chars[i]));
        i = i + 1;
    }
    w
}

#[verifier::loop_isolation(false)]
fn find_run_end(chars: &Vec<char>, ws: &Vec<bool>, p: usize) -> (e: usize)
    requires
        ws@.len() == chars@.len(),
        forall|i: int| 0 <= i < chars@.len() ==> ws@[i] == whitespace_char(chars@[i]),
        p < chars@.len(),
    ensures
        e == run_end(chars@, p as int),
        p < e <= chars@.len(),
{
    let s = Ghost(chars@);
    let n = chars.len();
    let mut i: usize = p + 1;
    while i < n && ws[i] == ws[p]
        invariant
            p < i <= n,
            n == chars@.len(),
            ws@.len() == n,
            forall|j: int| 0 <= j < n ==> ws@[j] == whitespace_char(chars@[j]),
            run_end(s@, p as int) == run_end(s@, i - 1),
            forall|j: int| p <= j < i ==> whitespace_char(s@[j]) == whitespace_char(s@[p as int]),
        decreases n - i,
    {
        proof {
            assert(whitespace_char(s@[i as int]) == whitespace_char(s@[p as int]));
            assert(run_end(s@, i - 1) == run_end(s@, i as int));
        }
        i = i + 1;
    }
    proof {
        lemma_run_end_range(s@, p as int);
    }
    i
}

/// Width of the segment `[a, b)` if it fits within `budget`, or `None` if
/// it exceeds it.
#[verifier::loop_isolation(false)]
fn seg_fits(
    s: Ghost<Seq<char>>,
    widths: &Vec<usize>,
    a: usize,
    b: usize,
    budget: usize,
) -> (r: Option<usize>)
    requires
        widths@.len() == s@.len(),
        forall|i: int| 0 <= i < s@.len() ==> widths@[i] == cell_width(s@[i]),
        a <= b <= s@.len(),
    ensures
        match r {
            Some(w) => w == seg_width(s@, a as int, b as int) && w <= budget,
            None => seg_width(s@, a as int, b as int) > budget,
        },
{
    let mut sum: usize = 0;
    let mut i: usize = a;
    while i < b
        invariant
            a <= i <= b <= s@.len(),
            widths@.len() == s@.len(),
            forall|j: int| 0 <= j < s@.len() ==> widths@[j] == cell_width(s@[j]),
            sum == seg_width(s@, a as int, i as int),
            sum <= budget,
        decreases b - i,
    {
        let w = widths[i];
        if w > budget - sum {
            proof {
                assert(seg_width(s@, a as int, i + 1) == seg_width(s@, a as int, i as int)
                    + cell_width(s@[i as int]));
                lemma_seg_width_split(s@, a as int, i + 1, b as int);
            }
            return None;
        }
        sum = sum + w;
        i = i + 1;
    }
    Some(sum)
}

#[verifier::loop_isolation(false)]
fn row_split_point(
    chars: &Vec<char>,
    ws: &Vec<bool>,
    widths: &Vec<usize>,
    budget: usize,
    p: usize,
) -> (e: usize)
    requires
        ws@.len() == chars@.len(),
        widths@.len() == chars@.len(),
        forall|i: int| 0 <= i < chars@.len() ==> ws@[i] == whitespace_char(chars@[i]),
        forall|i: int| 0 <= i < chars@.len() ==> widths@[i] == cell_width(chars@[i]),
        p < chars@.len(),
    ensures
        e == row_end(chars@, budget as int, p as int),
        p < e <= chars@.len(),
{
    let s = Ghost(chars@);
    let n = chars.len();
    let te = find_run_end(chars, ws, p);
    proof {
        lemma_row_end(s@, budget as int, p as int);
    }
    match seg_fits(s, widths, p, te, budget) {
        Some(w0) => {
            // The run fits from `p`: append whole runs while they still fit.
            let mut b: usize = te;
            let mut cur: usize = w0;
            while b < n
                invariant
                    p < te <= b <= n,
                    n == chars@.len(),
                    s@ == chars@,
                    ws@.len() == n,
                    widths@.len() == n,
                    forall|j: int| 0 <= j < n ==> ws@[j] == whitespace_char(chars@[j]),
                    forall|j: int| 0 <= j < n ==> widths@[j] == cell_width(chars@[j]),
                    cur == seg_width(s@, p as int, b as int),
                    cur <= budget,
                    grow_tokens(s@, budget as int, p as int, te as int) == grow_tokens(
                        s@,
                        budget as int,
                        p as int,
                        b as int,
                    ),
                decreases n - b,
            {
                let ne = find_run_end(chars, ws, b);
                proof {
                    lemma_seg_width_split(s@, p as int, b as int, ne as int);
                }
                match seg_fits(s, widths, b, ne, budget - cur) {
                    Some(tw) => {
                        cur = cur + tw;
                        b = ne;
                    },
                    None => {
                        return b;
                    },
                }
            }
            b
        },
        None => {
            // The run alone exceeds the budget: hard-split it character by
            // character, taking the widest prefix that fits (at least one).
            let mut e: usize = p + 1;
            let mut cur: usize = widths[p];
            proof {
                assert(seg_width(s@, p as int, p + 1) == seg_width(s@, p as int, p as int)
                    + cell_width(s@[p as int]));
            }
            while e < te
                invariant
                    p < e <= te <= n,
                    n == chars@.len(),
                    s@ == chars@,
                    widths@.len() == n,
                    forall|j: int| 0 <= j < n ==> widths@[j] == cell_width(chars@[j]),
                    cur == seg_width(s@, p as int, e as int),
                    grow_chunk(s@, budget as int, p as int, te as int, p + 1) == grow_chunk(
                        s@,
                        budget as int,
                        p as int,
                        te as int,
                        e as int,
                    ),
                    row_end(chars@, budget as int, p as int) == grow_chunk(
                        s@,
                        budget as int,
                        p as int,
                        te as int,
                        p + 1,
                    ),
                decreases te - e,
            {
                let w = widths[e];
                proof {
                    assert(seg_width(s@, p as int, e + 1) == seg_width(s@, p as int, e as int)
                        + cell_width(s@[e as int]));
                }
                if cur > budget || w > budget - cur {
                    return e;
                }
                cur = cur + w;
                e = e + 1;
            }
            e
        },
    }
}

/// Wrap one logical line to the column budget. The result is the exact row
/// decomposition of [`wrap_spec`]; an empty line yields one zero-width row.
#[verifier::loop_isolation(false)]
pub fn wrap_line_ranges(line: &str, width: usize) -> (w: LineWrap)
    requires
        width >= 1,
    ensures
        w.rows@ == wrap_spec(line@, width as int),
{
    let chars = str_to_chars(line);
    let n = chars.len();
    if n == 0 {
        return LineWrap { rows: vec![RowRange { start: 0, end: 0 }] };
    }
    let ws = whitespace_flags(&chars);
    let widths = cell_widths(&chars);
    let mut rows: Vec<RowRange> = Vec::new();
    let mut p: usize = 0;
    while p < n
        invariant
            p <= n,
            n == chars@.len(),
            chars@ == line@,
            n >= 1,
            width >= 1,
            ws@.len() == n,
            widths@.len() == n,
            forall|j: int| 0 <= j < n ==> ws@[j] == whitespace_char(chars@[j]),
            forall|j: int| 0 <= j < n ==> widths@[j] == cell_width(chars@[j]),
            rows@ + wrap_rows_from(line@, width as int, p as int) == wrap_spec(
                line@,
                width as int,
            ),
        decreases n - p,
    {
        let e = row_split_point(&chars, &ws, &widths, width, p);
        rows.push(RowRange { start: p, end: e });
        proof {
            assert(rows@ + wrap_rows_from(line@, width as int, e as int) =~= wrap_spec(
                line@,
                width as int,
            ));
        }
        p = e;
    }
    LineWrap { rows }
}

/// Effective column budget of a viewport width: a zero-width window is
/// treated as a single column so that wrapping always makes progress.
pub open spec fn effective_budget(width: u16) -> int {
    if width == 0 {
        1
    } else {
        width as int
    }
}

/// Total rendered rows of the first `i` lines when wrapped to `budget`.
pub open spec fn rows_before(lines: Seq<Seq<char>>, budget: int, i: int) -> nat
    decreases i,
{
    if i <= 0 {
        0
    } else {
        rows_before(lines, budget, i - 1) + wrap_spec(lines[i - 1], budget).len()
    }
}

/// `n` clamped to the `u16` range.
pub open spec fn sat16(n: int) -> u16 {
    if n > 0xFFFF {
        0xFFFF as u16
    } else if n < 0 {
        0 as u16
    } else {
        n as u16
    }
}

/// Wrap every logical line and build the vertical offset table: entry `i`
/// is the total rendered-row count of all preceding lines, saturated to
/// `u16`.
#[verifier::loop_isolation(false)]
pub fn build_wraps(lines: &Vec<String>, width: u16) -> (r: (Vec<LineWrap>, Vec<u16>))
    ensures
        r.0@.len() == lines@.len(),
        r.1@.len() == lines@.len(),
        forall|i: int|
            0 <= i < lines@.len() ==> #[trigger] r.0@[i].rows@ == wrap_spec(
                lines@[i]@,
                effective_budget(width),
            ),
        forall|i: int|
            0 <= i < lines@.len() ==> #[trigger] r.1@[i] == sat16(
                rows_before(lines@.map_values(|l: String| l@), effective_budget(width), i) as int,
            ),
{
    let budget: usize = if width == 0 {
        1
    } else {
        width as usize
    };
    let ghost linesv = lines@.map_values(|l: String| l@);
    let mut wraps: Vec<LineWrap> = Vec::new();
    let mut offsets: Vec<u16> = Vec::new();
    let mut current: u16 = 0;
    let mut i: usize = 0;
    while i < lines.len()
        invariant
            i <= lines@.len(),
            wraps@.len() == i,
            offsets@.len() == i,
            budget == effective_budget(width),
            linesv == lines@.map_values(|l: String| l@),
            forall|j: int|
                0 <= j < i ==> #[trigger] wraps@[j].rows@ == wrap_spec(
                    lines@[j]@,
                    effective_budget(width),
                ),
            forall|j: int|
                0 <= j < i ==> #[trigger] offsets@[j] == sat16(
                    rows_before(linesv, effective_budget(width), j) as int,
                ),
            current == sat16(rows_before(linesv, effective_budget(width), i as int) as int),
        decreases lines@.len() - i,
    {
        offsets.push(current);
        let wrap = wrap_line_ranges(lines[i].as_str(), budget);
        let rows_count: u16 = if wrap.rows.len() > 0xFFFF {
            0xFFFF
        } else {
            wrap.rows.len() as u16
        };
        proof {
            assert(linesv[i as int] == lines@[i as int]@);
        }
        current = current.saturating_add(rows_count);
        wraps.push(wrap);
        i = i + 1;
    }
    (wraps, offsets)
}

/// Index of the first row of `rows` whose half-open range contains the
/// character position `c`.
pub open spec fn row_index_of(rows: Seq<RowRange>, c: int) -> Option<int>
    decreases rows.len(),
{
    if rows.len() == 0 {
        None
    } else if rows[0].start <= c < rows[0].end {
        Some(0int)
    } else {
        match row_index_of(rows.drop_first(), c) {
            Some(i) => Some(i + 1),
            None => None,
        }
    }
}

/// What [`row_index_of`] finds: the first row containing `c`, or the fact
/// that no row does.
pub proof fn lemma_row_index_of(rows: Seq<RowRange>, c: int)
    ensures
        match row_index_of(rows, c) {
            Some(i) => 0 <= i < rows.len() && rows[i].start <= c < rows[i].end && forall|j: int|
                0 <= j < i ==> !(#[trigger] rows[j].start <= c < rows[j].end),
            None => forall|j: int|
                0 <= j < rows.len() ==> !(#[trigger] rows[j].start <= c < rows[j].end),
        },
    decreases rows.len(),
{
    if rows.len() > 0 && !(rows[0].start <= c < rows[0].end) {
        let rest = rows.drop_first();
        lemma_row_index_of(rest, c);
        match row_index_of(rows, c) {
            Some(i) => {
                assert(rows[i] == rest[i - 1]);
                assert forall|j: int| 0 <= j < i implies !(#[trigger] rows[j].start <= c
                    < rows[j].end) by {
                    if j > 0 {
                        assert(rows[j] == rest[j - 1]);
                    }
                }
            },
            None => {
                assert forall|j: int| 0 <= j < rows.len() implies !(#[trigger] rows[j].start <= c
                    < rows[j].end) by {
                    if j > 0 {
                        assert(rows[j] == rest[j - 1]);
                    }
                }
            },
        }
    }
}

/// Index of the row of a wrapped line that contains the character index, if
/// any: the first row whose half-open range contains it.
#[verifier::loop_isolation(false)]
pub fn row_for_char(wrap: &LineWrap, char_idx: usize) -> (r: Option<usize>)
    ensures
        match r {
            Some(i) => row_index_of(wrap.rows@, char_idx as int) == Some(i as int),
            None => row_index_of(wrap.rows@, char_idx as int) is None,
        },
{
    proof {
        assert(wrap.rows@.skip(0) =~= wrap.rows@);
    }
    let mut i: usize = 0;
    while i < wrap.rows.len()
        invariant
            i <= wrap.rows@.len(),
            row_index_of(wrap.rows@, char_idx as int) == match row_index_of(
                wrap.rows@.skip(i as int),
                char_idx as int,
            ) {
                Some(k) => Some(k + i),
                None => None::<int>,
            },
        decreases wrap.rows@.len() - i,
    {
        let row = wrap.rows[i];
        proof {
            assert(wrap.rows@.skip(i as int)[0] == wrap.rows@[i as int]);
            assert(wrap.rows@.skip(i as int).drop_first() =~= wrap.rows@.skip(i + 1));
        }
        if row.start <= char_idx && char_idx < row.end {
            return Some(i);
        }
        i = i + 1;
    }
    None
}

} // verus!
