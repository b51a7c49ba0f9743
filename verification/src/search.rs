//! The search engine: case-insensitive (ASCII-folding) substring scan over
//! all logical lines, producing ordered match records whose scroll targets
//! are resolved through the coordinate mapper. Matches are aligned to
//! character boundaries; their byte offsets are the UTF-8 offsets of those
//! boundaries.

use crate::textutil::{byte_index, char_utf8_len, lemma_byte_index_le, lemma_byte_index_lt,
    lemma_byte_index_step, str_to_chars};
use crate::wrap::{row_for_char, row_index_of, sat16, LineWrap};
use vstd::prelude::*;
use vstd::string::*;

verus! {

/// One occurrence of the search query: the byte range `[start, end)` and
/// first character index within line `line_idx`, plus the absolute
/// rendered row (`scroll_pos`) of the row containing the first character.
#[derive(Clone, Copy, Debug)]
pub struct SearchMatch {
    pub line_idx: usize,
    pub start: usize,
    pub end: usize,
    pub start_char: usize,
    pub scroll_pos: u16,
}

/// ASCII case folding of a character's scalar value: uppercase ASCII
/// letters fold to lowercase, every other character stands for itself.
pub open spec fn fold_code(c: char) -> u32 {
    let v = c as u32;
    if 65 <= v <= 90 {
        (v + 32) as u32
    } else {
        v
    }
}

/// Executable counterpart of [`fold_code`].
pub fn fold_char(c: char) -> (v: u32)
    ensures
        v == fold_code(c),
{
    let v = c as u32;
    if 65 <= v && v <= 90 {
        v + 32
    } else {
        v
    }
}

/// The query `q` occurs at character position `i` of `s`, comparing
/// characters under ASCII case folding.
pub open spec fn match_at(s: Seq<char>, q: Seq<char>, i: int) -> bool {
    &&& 0 <= i
    &&& i + q.len() <= s.len()
    &&& forall|j: int| 0 <= j < q.len() ==> fold_code(s[i + j]) == fold_code(q[j])
}

/// The byte ranges of all occurrences of `q` in `s` at character positions
/// `>= from`, in position order. Overlapping occurrences are all reported.
pub open spec fn match_ranges_from(s: Seq<char>, q: Seq<char>, from: int) -> Seq<(usize, usize)>
    decreases s.len() - from,
{
    if from < 0 || from >= s.len() || from + q.len() > s.len() {
        Seq::empty()
    } else {
        (if match_at(s, q, from) {
            seq![
                (
                    byte_index(s, from) as usize,
                    byte_index(s, from + q.len()) as usize,
                ),
            ]
        } else {
            Seq::empty()
        }) + match_ranges_from(s, q, from + 1)
    }
}

/// All occurrences of a non-empty query; an empty query matches nothing.
pub open spec fn match_ranges_spec(s: Seq<char>, q: Seq<char>) -> Seq<(usize, usize)> {
    if q.len() == 0 {
        Seq::empty()
    } else {
        match_ranges_from(s, q, 0)
    }
}

pub(crate) fn fold_codes(chars: &Vec<char>) -> (v: Vec<u32>)
    ensures
        v@.len() == chars@.len(),
        forall|i: int| 0 <= i < chars@.len() ==> v@[i] == fold_code(chars@[i]),
{
    let mut v: Vec<u32> = Vec::new();
    let mut i: usize = 0;
    while i < chars.len()
        invariant
            i <= chars@.len(),
            v@.len() == i,
            forall|j: int| 0 <= j < i ==> v@[j] == fold_code(chars@[j]),
        decreases chars@.len() - i,
    {
        v.push(fold_char(chars[i]));
        i = i + 1;
    }
    v
}

/// Byte offset of every character boundary of `line`, including the end.
#[verifier::loop_isolation(false)]
pub(crate) fn byte_offsets(line: &str, chars: &Vec<char>) -> (v: Vec<usize>)
    requires
        chars@ == line@,
    ensures
        v@.len() == chars@.len() + 1,
        forall|i: int| 0 <= i <= chars@.len() ==> #[trigger] v@[i] == byte_index(line@, i),
{
    let bytes: &[u8] = line.as_bytes();
    let total: usize = bytes.len();
    proof {
        assert(line@.take(line@.len() as int) =~= line@);
    }
    let mut v: Vec<usize> = Vec::new();
    let mut sum: usize = 0;
    let mut i: usize = 0;
    while i < chars.len()
        invariant
            i <= chars@.len(),
            v@.len() == i,
            sum == byte_index(line@, i as int),
            forall|j: int| 0 <= j < i ==> #[trigger] v@[j] == byte_index(line@, j),
        decreases chars@.len() - i,
    {
        v.push(sum);
        let w = char_utf8_len(chars[i]);
        proof {
            lemma_byte_index_step(line@, i as int);
            lemma_byte_index_le(line@, i + 1, line@.len() as int);
        }
        sum = sum + w;
        i = i + 1;
    }
    v.push(sum);
    v
}

#[verifier::loop_isolation(false)]
pub(crate) fn is_match_at(
    sf: &Vec<u32>,
    qf: &Vec<u32>,
    s: Ghost<Seq<char>>,
    q: Ghost<Seq<char>>,
    i: usize,
) -> (b: bool)
    requires
        sf@.len() == s@.len(),
        qf@.len() == q@.len(),
        forall|k: int| 0 <= k < s@.len() ==> sf@[k] == fold_code(s@[k]),
        forall|k: int| 0 <= k < q@.len() ==> qf@[k] == fold_code(q@[k]),
        i + q@.len() <= s@.len(),
    ensures
        b == match_at(s@, q@, i as int),
{
    let sn = sf.len();
    let mut j: usize = 0;
    while j < qf.len()
        invariant
            j <= q@.len(),
            sn == s@.len(),
            forall|k: int| 0 <= k < j ==> fold_code(s@[i + k]) == fold_code(q@[k]),
        decreases q@.len() - j,
    {
        if sf[i + j] != qf[j] {
            return false;
        }
        j = j + 1;
    }
    true
}

/// All occurrences of the query in one line, as byte ranges in position
/// order; ASCII letters compare case-insensitively, and overlapping
/// occurrences are all reported. An empty query yields no ranges.
#[verifier::loop_isolation(false)]
pub fn match_ranges(line: &str, query: &str) -> (r: Vec<(usize, usize)>)
    ensures
        r@ == match_ranges_spec(line@, query@),
{
    let schars = str_to_chars(line);
    let qchars = str_to_chars(query);
    let n = schars.len();
    let m = qchars.len();
    if m == 0 || m > n {
        proof {
            assert(match_ranges_spec(line@, query@) =~= Seq::<(usize, usize)>::empty());
        }
        return Vec::new();
    }
    let offs = byte_offsets(line, &schars);
    let sf = fold_codes(&schars);
    let qf = fold_codes(&qchars);
    let mut r: Vec<(usize, usize)> = Vec::new();
    let mut i: usize = 0;
    while i <= n - m
        invariant
            i <= n - m + 1,
            r@ + match_ranges_from(line@, query@, i as int) == match_ranges_from(
                line@,
                query@,
                0,
            ),
        decreases n - m + 1 - i,
    {
        if is_match_at(&sf, &qf, Ghost(line@), Ghost(query@), i) {
            r.push((offs[i], offs[i + m]));
        }
        proof {
            assert(r@ + match_ranges_from(line@, query@, i + 1) =~= match_ranges_from(
                line@,
                query@,
                0,
            ));
        }
        i = i + 1;
    }
    r
}

/// The matches of `q` in one line `s` with index `li`, in position order,
/// with unresolved (zero) scroll targets.
pub open spec fn line_matches_from(s: Seq<char>, q: Seq<char>, li: int, from: int) -> Seq<
    SearchMatch,
>
    decreases s.len() - from,
{
    if from < 0 || from >= s.len() || from + q.len() > s.len() {
        Seq::empty()
    } else {
        (if match_at(s, q, from) {
            seq![
                SearchMatch {
                    line_idx: li as usize,
                    start: byte_index(s, from) as usize,
                    end: byte_index(s, from + q.len()) as usize,
                    start_char: from as usize,
                    scroll_pos: 0u16,
                },
            ]
        } else {
            Seq::empty()
        }) + line_matches_from(s, q, li, from + 1)
    }
}

/// All matches of `q` across the lines `li, li+1, ...`, ordered by line
/// and then by position.
pub open spec fn all_matches_from(lines: Seq<Seq<char>>, q: Seq<char>, li: int) -> Seq<SearchMatch>
    decreases lines.len() - li,
{
    if li < 0 || li >= lines.len() {
        Seq::empty()
    } else {
        line_matches_from(lines[li], q, li, 0) + all_matches_from(lines, q, li + 1)
    }
}

/// All matches of the query across all lines: empty for an empty query,
/// otherwise ordered by `(line_idx, position)` with every overlapping
/// occurrence reported.
pub open spec fn find_matches_spec(lines: Seq<Seq<char>>, q: Seq<char>) -> Seq<SearchMatch> {
    if q.len() == 0 {
        Seq::empty()
    } else {
        all_matches_from(lines, q, 0)
    }
}

#[verifier::loop_isolation(false)]
fn line_matches(line: &str, query: &str, li: usize) -> (r: Vec<SearchMatch>)
    requires
        query@.len() > 0,
    ensures
        r@ == line_matches_from(line@, query@, li as int, 0),
{
    let schars = str_to_chars(line);
    let qchars = str_to_chars(query);
    let n = schars.len();
    let m = qchars.len();
    if m > n {
        proof {
            assert(line_matches_from(line@, query@, li as int, 0) =~= Seq::<SearchMatch>::empty());
        }
        return Vec::new();
    }
    let offs = byte_offsets(line, &schars);
    let sf = fold_codes(&schars);
    let qf = fold_codes(&qchars);
    let mut r: Vec<SearchMatch> = Vec::new();
    let mut i: usize = 0;
    while i <= n - m
        invariant
            i <= n - m + 1,
            r@ + line_matches_from(line@, query@, li as int, i as int) == line_matches_from(
                line@,
                query@,
                li as int,
                0,
            ),
        decreases n - m + 1 - i,
    {
        if is_match_at(&sf, &qf, Ghost(line@), Ghost(query@), i) {
            r.push(
                SearchMatch {
                    line_idx: li,
                    start: offs[i],
                    end: offs[i + m],
                    start_char: i,
                    scroll_pos: 0,
                },
            );
        }
        proof {
            assert(r@ + line_matches_from(line@, query@, li as int, i + 1) =~= line_matches_from(
                line@,
                query@,
                li as int,
                0,
            ));
        }
        i = i + 1;
    }
    r
}

/// Scan every logical line for the query: all occurrences, ordered by
/// `(line, position)`; an empty query yields no matches. Scroll targets
/// are left unresolved (zero).
#[verifier::loop_isolation(false)]
pub fn find_matches(lines: &Vec<String>, query: &str) -> (r: Vec<SearchMatch>)
    ensures
        r@ == find_matches_spec(lines@.map_values(|l: String| l@), query@),
{
    let ghost linesv = lines@.map_values(|l: String| l@);
    if query.unicode_len() == 0 {
        return Vec::new();
    }
    let mut r: Vec<SearchMatch> = Vec::new();
    let mut li: usize = 0;
    while li < lines.len()
        invariant
            li <= lines@.len(),
            linesv == lines@.map_values(|l: String| l@),
            r@ + all_matches_from(linesv, query@, li as int) == all_matches_from(
                linesv,
                query@,
                0,
            ),
        decreases lines@.len() - li,
    {
        let mut found = line_matches(lines[li].as_str(), query, li);
        proof {
            assert(linesv[li as int] == lines@[li as int]@);
            assert((r@ + found@) + all_matches_from(linesv, query@, li + 1) =~= r@ + (found@
                + all_matches_from(linesv, query@, li + 1)));
        }
        r.append(&mut found);
        li = li + 1;
    }
    r
}

/// A match record with its scroll target resolved against the wrap tables:
/// the line's vertical offset plus the row index containing the match's
/// first character. Matches on lines outside the tables are unchanged.
pub open spec fn resolve_match(m: SearchMatch, wraps: Seq<LineWrap>, offsets: Seq<u16>)
    -> SearchMatch {
    let li = m.line_idx as int;
    if li < offsets.len() && li < wraps.len() {
        let row = match row_index_of(wraps[li].rows@, m.start_char as int) {
            Some(i) => i,
            None => 0,
        };
        SearchMatch {
            scroll_pos: sat16(
                offsets[li] as int + (if row > 0xFFFF {
                    0xFFFF as int
                } else {
                    row
                }),
            ),
            ..m
        }
    } else {
        m
    }
}

/// Find all matches of the query and resolve each one's scroll target
/// through the wrap and offset tables.
#[verifier::loop_isolation(false)]
pub fn build_search_matches(
    lines: &Vec<String>,
    query: &str,
    wraps: &Vec<LineWrap>,
    offsets: &Vec<u16>,
    _width: u16,
) -> (r: Vec<SearchMatch>)
    ensures
        r@ == find_matches_spec(lines@.map_values(|l: String| l@), query@).map_values(
            |m: SearchMatch| resolve_match(m, wraps@, offsets@),
        ),
{
    let found = find_matches(lines, query);
    let ghost base = find_matches_spec(lines@.map_values(|l: String| l@), query@);
    let mut r: Vec<SearchMatch> = Vec::new();
    let mut k: usize = 0;
    while k < found.len()
        invariant
            k <= found@.len(),
            found@ == base,
            r@.len() == k,
            forall|j: int|
                0 <= j < k ==> #[trigger] r@[j] == resolve_match(base[j], wraps@, offsets@),
        decreases found@.len() - k,
    {
        let m = found[k];
        if m.line_idx < offsets.len() && m.line_idx < wraps.len() {
            let row: usize = match row_for_char(&wraps[m.line_idx], m.start_char) {
                Some(i) => i,
                None => 0,
            };
            let row16: u16 = if row > 0xFFFF {
                0xFFFF
            } else {
                row as u16
            };
            let pos = offsets[m.line_idx].saturating_add(row16);
            r.push(
                SearchMatch {
                    line_idx: m.line_idx,
                    start: m.start,
                    end: m.end,
                    start_char: m.start_char,
                    scroll_pos: pos,
                },
            );
        } else {
            r.push(m);
        }
        k = k + 1;
    }
    proof {
        assert(r@ =~= base.map_values(|m: SearchMatch| resolve_match(m, wraps@, offsets@)));
    }
    r
}

proof fn lemma_line_matches_props(s: Seq<char>, q: Seq<char>, li: int, from: int)
    requires
        q.len() >= 1,
        s.len() <= usize::MAX,
        byte_index(s, s.len() as int) <= usize::MAX,
        0 <= li <= usize::MAX,
    ensures
        forall|k: int|
            0 <= k < line_matches_from(s, q, li, from).len() ==> {
                let m = #[trigger] line_matches_from(s, q, li, from)[k];
                m.line_idx == li && from <= m.start_char && m.start == byte_index(
                    s,
                    m.start_char as int,
                ) && m.start_char + q.len() <= s.len()
            },
        forall|k1: int, k2: int|
            0 <= k1 < k2 < line_matches_from(s, q, li, from).len()
                ==> #[trigger] line_matches_from(s, q, li, from)[k1].start_char
                < #[trigger] line_matches_from(s, q, li, from)[k2].start_char,
    decreases s.len() - from,
{
    if !(from < 0 || from >= s.len() || from + q.len() > s.len()) {
        lemma_line_matches_props(s, q, li, from + 1);
        let cur = line_matches_from(s, q, li, from);
        let rest = line_matches_from(s, q, li, from + 1);
        lemma_byte_index_le(s, from, s.len() as int);
        if match_at(s, q, from) {
            assert forall|k: int| 1 <= k < cur.len() implies cur[k] == rest[k - 1] by {}
        } else {
            assert(cur =~= rest);
        }
    }
}

proof fn lemma_all_matches_props(lines: Seq<Seq<char>>, q: Seq<char>, li: int)
    requires
        q.len() >= 1,
        lines.len() <= usize::MAX,
        forall|i: int| 0 <= i < lines.len() ==> (#[trigger] lines[i]).len() <= usize::MAX,
        forall|i: int|
            0 <= i < lines.len() ==> byte_index(#[trigger] lines[i], lines[i].len() as int)
                <= usize::MAX,
        li >= 0,
    ensures
        forall|k: int|
            0 <= k < all_matches_from(lines, q, li).len() ==> li
                <= (#[trigger] all_matches_from(lines, q, li)[k]).line_idx < lines.len(),
        forall|k1: int, k2: int|
            0 <= k1 < k2 < all_matches_from(lines, q, li).len() ==> {
                let m1 = #[trigger] all_matches_from(lines, q, li)[k1];
                let m2 = #[trigger] all_matches_from(lines, q, li)[k2];
                m1.line_idx < m2.line_idx || (m1.line_idx == m2.line_idx && m1.start < m2.start)
            },
    decreases lines.len() - li,
{
    if li < lines.len() {
        lemma_line_matches_props(lines[li], q, li, 0);
        lemma_all_matches_props(lines, q, li + 1);
        let cur = all_matches_from(lines, q, li);
        let head = line_matches_from(lines[li], q, li, 0);
        let rest = all_matches_from(lines, q, li + 1);
        assert forall|k1: int, k2: int| 0 <= k1 < k2 < cur.len() implies {
            let m1 = #[trigger] cur[k1];
            let m2 = #[trigger] cur[k2];
            m1.line_idx < m2.line_idx || (m1.line_idx == m2.line_idx && m1.start < m2.start)
        } by {
            if k2 < head.len() {
                assert(cur[k1] == head[k1]);
                assert(cur[k2] == head[k2]);
                lemma_byte_index_lt(
                    lines[li],
                    head[k1].start_char as int,
                    head[k2].start_char as int,
                );
            } else if k1 < head.len() {
                assert(cur[k1] == head[k1]);
                assert(cur[k2] == rest[k2 - head.len()]);
            } else {
                assert(cur[k1] == rest[k1 - head.len()]);
                assert(cur[k2] == rest[k2 - head.len()]);
            }
        }
    }
}

/// The search result list is ordered: an empty query yields no matches at
/// all, and the matches of a non-empty query come in strictly increasing
/// `(line_idx, byte start)` order, which makes the next/previous cycle
/// stable.
pub proof fn lemma_search_matches_ordered(lines: Seq<Seq<char>>, q: Seq<char>)
    requires
        lines.len() <= usize::MAX,
        forall|i: int| 0 <= i < lines.len() ==> (#[trigger] lines[i]).len() <= usize::MAX,
        forall|i: int|
            0 <= i < lines.len() ==> byte_index(#[trigger] lines[i], lines[i].len() as int)
                <= usize::MAX,
    ensures
        q.len() == 0 ==> find_matches_spec(lines, q) == Seq::<SearchMatch>::empty(),
        forall|k1: int, k2: int|
            0 <= k1 < k2 < find_matches_spec(lines, q).len() ==> {
                let m1 = #[trigger] find_matches_spec(lines, q)[k1];
                let m2 = #[trigger] find_matches_spec(lines, q)[k2];
                m1.line_idx < m2.line_idx || (m1.line_idx == m2.line_idx && m1.start < m2.start)
            },
{
    if q.len() > 0 {
        lemma_all_matches_props(lines, q, 0);
    }
}

} // verus!
