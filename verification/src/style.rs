//! Styled text as the renderer sees it: colored, attributed character
//! runs, the color theme, and the estimate of how many rows a styled
//! document occupies at a given width.

use crate::search::{byte_offsets, fold_codes, is_match_at, match_at, SearchMatch};
use crate::textutil::{byte_index, str_to_chars};
use crate::width::{char_table_width, table_width, text_width};
use vstd::prelude::*;
use vstd::string::*;

verus! {

/// A terminal color.
#[derive(Clone, Copy, Debug, PartialEq, Eq, Structural)]
pub enum Color {
    Reset,
    Black,
    Red,
    Green,
    Yellow,
    Blue,
    Magenta,
    Cyan,
    Gray,
    DarkGray,
    LightRed,
    LightGreen,
    LightYellow,
    LightBlue,
    LightMagenta,
    LightCyan,
    White,
    Rgb(u8, u8, u8),
    Indexed(u8),
}

/// Text attribute bits.
pub const MOD_BOLD: u16 = 1;

pub const MOD_DIM: u16 = 2;

pub const MOD_ITALIC: u16 = 4;

pub const MOD_UNDERLINED: u16 = 8;

pub const MOD_CROSSED_OUT: u16 = 16;

/// The style of a text run: optional foreground and background colors and
/// a set of attribute bits.
#[derive(Clone, Copy, Debug, PartialEq, Eq, Structural)]
pub struct TextStyle {
    pub fg: Option<Color>,
    pub bg: Option<Color>,
    pub modifiers: u16,
}

impl TextStyle {
    /// The empty style: no colors, no attributes.
    pub open spec fn plain_spec() -> TextStyle {
        TextStyle { fg: None, bg: None, modifiers: 0 }
    }

    pub fn plain() -> (s: TextStyle)
        ensures
            s == TextStyle::plain_spec(),
    {
        TextStyle { fg: None, bg: None, modifiers: 0 }
    }

    /// Overlaying `over` on `base`: set colors of `over` win, attribute
    /// bits accumulate.
    pub open spec fn patch_spec(base: TextStyle, over: TextStyle) -> TextStyle {
        TextStyle {
            fg: if over.fg is Some {
                over.fg
            } else {
                base.fg
            },
            bg: if over.bg is Some {
                over.bg
            } else {
                base.bg
            },
            modifiers: base.modifiers | over.modifiers,
        }
    }

    /// Overlay another style on this one.
    pub fn patch(&self, over: &TextStyle) -> (r: TextStyle)
        ensures
            r == TextStyle::patch_spec(*self, *over),
    {
        TextStyle {
            fg: match over.fg {
                Some(c) => Some(c),
                None => self.fg,
            },
            bg: match over.bg {
                Some(c) => Some(c),
                None => self.bg,
            },
            modifiers: self.modifiers | over.modifiers,
        }
    }
}

/// A run of characters sharing one style.
#[derive(Clone, Debug)]
pub struct StyledSpan {
    pub content: String,
    pub style: TextStyle,
}

/// One logical line of styled text.
#[derive(Clone, Debug)]
pub struct StyledLine {
    pub spans: Vec<StyledSpan>,
}

/// The characters of a span list, in order.
pub open spec fn spans_text(spans: Seq<StyledSpan>) -> Seq<char>
    decreases spans.len(),
{
    if spans.len() == 0 {
        Seq::empty()
    } else {
        spans_text(spans.drop_last()) + spans.last().content@
    }
}

/// The flattened text of a styled line.
#[verifier::loop_isolation(false)]
pub fn line_text(line: &StyledLine) -> (s: String)
    ensures
        s@ == spans_text(line.spans@),
{
    let mut s = String::new();
    let mut i: usize = 0;
    while i < line.spans.len()
        invariant
            i <= line.spans@.len(),
            s@ == spans_text(line.spans@.take(i as int)),
        decreases line.spans@.len() - i,
    {
        s.append(line.spans[i].content.as_str());
        proof {
            assert(line.spans@.take(i + 1).drop_last() =~= line.spans@.take(i as int));
            assert(line.spans@.take(i + 1).last() == line.spans@[i as int]);
        }
        i = i + 1;
    }
    proof {
        assert(line.spans@.take(line.spans@.len() as int) =~= line.spans@);
    }
    s
}

/// The color theme of the viewer.
#[derive(Clone, Copy, Debug)]
pub struct Theme {
    pub border: Color,
    pub title: Color,
    pub footer: Color,
    pub heading: Color,
    pub link: Color,
    pub list_bullet: Color,
    pub code: Color,
    pub quote: Color,
    pub rule: Color,
    pub scrollbar_thumb: Color,
    pub scrollbar_track: Color,
    pub beeline_start: Color,
    pub beeline_end: Color,
    pub search_bg: Color,
    pub search_fg: Color,
    pub search_bg_active: Color,
    pub search_fg_active: Color,
}

impl Theme {
    /// The pastel theme.
    pub open spec fn pastel_spec() -> Theme {
        Theme {
            border: Color::Rgb(184, 193, 236),
            title: Color::Rgb(132, 140, 200),
            footer: Color::Rgb(160, 168, 210),
            heading: Color::Rgb(140, 180, 220),
            link: Color::Rgb(140, 170, 230),
            list_bullet: Color::Rgb(152, 210, 190),
            code: Color::Rgb(240, 200, 170),
            quote: Color::Rgb(190, 170, 220),
            rule: Color::Rgb(190, 190, 200),
            scrollbar_thumb: Color::Rgb(150, 190, 220),
            scrollbar_track: Color::Rgb(210, 220, 230),
            beeline_start: Color::Rgb(170, 200, 230),
            beeline_end: Color::Rgb(230, 170, 200),
            search_bg: Color::Rgb(255, 230, 170),
            search_fg: Color::Rgb(60, 60, 60),
            search_bg_active: Color::Rgb(255, 200, 120),
            search_fg_active: Color::Rgb(40, 40, 40),
        }
    }

    pub fn pastel() -> (t: Theme)
        ensures
            t == Theme::pastel_spec(),
    {
        Theme {
            border: Color::Rgb(184, 193, 236),
            title: Color::Rgb(132, 140, 200),
            footer: Color::Rgb(160, 168, 210),
            heading: Color::Rgb(140, 180, 220),
            link: Color::Rgb(140, 170, 230),
            list_bullet: Color::Rgb(152, 210, 190),
            code: Color::Rgb(240, 200, 170),
            quote: Color::Rgb(190, 170, 220),
            rule: Color::Rgb(190, 190, 200),
            scrollbar_thumb: Color::Rgb(150, 190, 220),
            scrollbar_track: Color::Rgb(210, 220, 230),
            beeline_start: Color::Rgb(170, 200, 230),
            beeline_end: Color::Rgb(230, 170, 200),
            search_bg: Color::Rgb(255, 230, 170),
            search_fg: Color::Rgb(60, 60, 60),
            search_bg_active: Color::Rgb(255, 200, 120),
            search_fg_active: Color::Rgb(40, 40, 40),
        }
    }
}

/// The style of each character of a span list, in order: every character
/// carries its span's style.
pub open spec fn spans_styles(spans: Seq<StyledSpan>) -> Seq<TextStyle>
    decreases spans.len(),
{
    if spans.len() == 0 {
        Seq::empty()
    } else {
        spans_styles(spans.drop_last()) + Seq::new(
            spans.last().content@.len(),
            |i: int| spans.last().style,
        )
    }
}

/// A span list has as many per-character styles as characters.
pub proof fn lemma_spans_lengths(spans: Seq<StyledSpan>)
    ensures
        spans_styles(spans).len() == spans_text(spans).len(),
    decreases spans.len(),
{
    if spans.len() > 0 {
        lemma_spans_lengths(spans.drop_last());
    }
}

/// Character `k` of the line lies inside some occurrence of the query.
pub open spec fn hl_at(text: Seq<char>, q: Seq<char>, k: int) -> bool {
    exists|i: int| match_at(text, q, i) && i <= k < i + q.len()
}

/// Character `k` lies inside the active occurrence: the one on this line
/// whose byte range is the active match's.
pub open spec fn act_at(
    text: Seq<char>,
    q: Seq<char>,
    active: Option<SearchMatch>,
    li: int,
    k: int,
) -> bool {
    match active {
        None => false,
        Some(m) => m.line_idx == li && exists|i: int|
            match_at(text, q, i) && i <= k < i + q.len() && byte_index(text, i) == m.start
                && byte_index(text, i + q.len()) == m.end,
    }
}

/// The overlay style for matched text.
pub open spec fn search_overlay(th: Theme, active: bool) -> TextStyle {
    if active {
        TextStyle { fg: Some(th.search_fg_active), bg: Some(th.search_bg_active), modifiers: 0 }
    } else {
        TextStyle { fg: Some(th.search_fg), bg: Some(th.search_bg), modifiers: 0 }
    }
}

/// The style of character `k` after the search overlay: the underlying
/// style, patched with the active or plain highlight where the character
/// lies in a match.
pub open spec fn highlighted_style(
    base: TextStyle,
    text: Seq<char>,
    q: Seq<char>,
    active: Option<SearchMatch>,
    li: int,
    th: Theme,
    k: int,
) -> TextStyle {
    if act_at(text, q, active, li, k) {
        TextStyle::patch_spec(base, search_overlay(th, true))
    } else if hl_at(text, q, k) {
        TextStyle::patch_spec(base, search_overlay(th, false))
    } else {
        base
    }
}

/// The relation between a styled line and its search-highlighted form:
/// with no occurrence of the query on the line the spans are unchanged;
/// otherwise the text is preserved, every character carries its
/// highlighted style, and the result is coalesced into maximal non-empty
/// runs of equal style.
pub open spec fn line_highlight_ok(
    input: StyledLine,
    output: StyledLine,
    q: Seq<char>,
    active: Option<SearchMatch>,
    li: int,
    th: Theme,
) -> bool {
    let text = spans_text(input.spans@);
    if !(exists|i: int| match_at(text, q, i)) {
        output.spans@ == input.spans@
    } else {
        &&& spans_text(output.spans@) == text
        &&& spans_styles(output.spans@) == Seq::new(
            text.len(),
            |k: int|
                highlighted_style(spans_styles(input.spans@)[k], text, q, active, li, th, k),
        )
        &&& forall|i: int|
            0 <= i < output.spans@.len() ==> (#[trigger] output.spans@[i]).content@.len() > 0
        &&& forall|i: int|
            0 <= i < output.spans@.len() - 1 ==> (#[trigger] output.spans@[i]).style
                != output.spans@[i + 1].style
    }
}

fn clone_styled_line(line: &StyledLine) -> (out: StyledLine)
    ensures
        out.spans@ == line.spans@,
{
    let mut spans: Vec<StyledSpan> = Vec::new();
    let mut i: usize = 0;
    #[verifier::loop_isolation(false)]
    while i < line.spans.len()
        invariant
            i <= line.spans@.len(),
            spans@ =~= line.spans@.take(i as int),
        decreases line.spans@.len() - i,
    {
        spans.push(
            StyledSpan { content: line.spans[i].content.clone(), style: line.spans[i].style },
        );
        proof {
            assert(spans@ =~= line.spans@.take(i + 1));
        }
        i = i + 1;
    }
    proof {
        assert(line.spans@.take(line.spans@.len() as int) =~= line.spans@);
    }
    StyledLine { spans }
}

/// Which characters of the line fall in a match, and which fall in the
/// active match.
#[verifier::loop_isolation(false)]
fn match_flags(
    schars: &Vec<char>,
    sf: &Vec<u32>,
    qf: &Vec<u32>,
    offs: &Vec<usize>,
    text: Ghost<Seq<char>>,
    q: Ghost<Seq<char>>,
    active: Option<SearchMatch>,
    line_index: usize,
) -> (r: (Vec<bool>, Vec<bool>))
    requires
        schars@ == text@,
        sf@.len() == text@.len(),
        qf@.len() == q@.len(),
        q@.len() >= 1,
        forall|t: int| 0 <= t < text@.len() ==> sf@[t] == crate::search::fold_code(text@[t]),
        forall|t: int| 0 <= t < q@.len() ==> qf@[t] == crate::search::fold_code(q@[t]),
        offs@.len() == text@.len() + 1,
        forall|t: int| 0 <= t <= text@.len() ==> #[trigger] offs@[t] == byte_index(text@, t),
    ensures
        r.0@.len() == text@.len(),
        r.1@.len() == text@.len(),
        forall|k: int| 0 <= k < text@.len() ==> r.0@[k] == hl_at(text@, q@, k),
        forall|k: int|
            0 <= k < text@.len() ==> r.1@[k] == act_at(text@, q@, active, line_index as int, k),
{
    let n = schars.len();
    let m = qf.len();
    let active_bytes: Option<(usize, usize)> = match active {
        Some(am) => if am.line_idx == line_index {
            Some((am.start, am.end))
        } else {
            None
        },
        None => None,
    };
    let mut hl: Vec<bool> = Vec::new();
    let mut act: Vec<bool> = Vec::new();
    let mut k: usize = 0;
    while k < n
        invariant
            k <= n,
            hl@.len() == k,
            act@.len() == k,
            forall|t: int| 0 <= t < k ==> hl@[t] == hl_at(text@, q@, t),
            forall|t: int|
                0 <= t < k ==> act@[t] == act_at(text@, q@, active, line_index as int, t),
        decreases n - k,
    {
        let mut h = false;
        let mut a = false;
        if m <= n {
            let lo: usize = if k + 1 >= m {
                k + 1 - m
            } else {
                0
            };
            let hi: usize = if k <= n - m {
                k
            } else {
                n - m
            };
            let mut i: usize = lo;
            while i <= hi
                invariant
                    lo <= i <= hi + 1,
                    hi <= n - m,
                    m <= n,
                    k < n,
                    lo == if k + 1 >= m {
                        (k + 1 - m) as int
                    } else {
                        0int
                    },
                    hi == if k <= n - m {
                        k as int
                    } else {
                        (n - m) as int
                    },
                    h == exists|t: int|
                        lo <= t < i && match_at(text@, q@, t) && t <= k < t + q@.len(),
                    a == exists|t: int|
                        lo <= t < i && match_at(text@, q@, t) && t <= k < t + q@.len() && (
                        active_bytes matches Some(ab) && byte_index(text@, t) == ab.0
                            && byte_index(text@, t + q@.len()) == ab.1),
                decreases hi + 1 - i,
            {
                if is_match_at(sf, qf, Ghost(text@), Ghost(q@), i) && i <= k && k < i + m {
                    h = true;
                    match active_bytes {
                        Some(ab) => {
                            if offs[i] == ab.0 && offs[i + m] == ab.1 {
                                a = true;
                            }
                        },
                        None => {},
                    }
                }
                i = i + 1;
            }
            proof {
                if exists|t: int| match_at(text@, q@, t) && t <= k < t + q@.len() {
                    let t = choose|t: int| match_at(text@, q@, t) && t <= k < t + q@.len();
                    assert(lo <= t <= hi);
                }
                if act_at(text@, q@, active, line_index as int, k as int) {
                    let t = choose|t: int|
                        match_at(text@, q@, t) && t <= k < t + q@.len() && byte_index(text@, t)
                            == active->Some_0.start && byte_index(text@, t + q@.len())
                            == active->Some_0.end;
                    assert(lo <= t <= hi);
                }
            }
        } else {
            proof {
                if exists|t: int| match_at(text@, q@, t) && t <= k < t + q@.len() {
                    let t = choose|t: int| match_at(text@, q@, t) && t <= k < t + q@.len();
                    assert(t + q@.len() <= text@.len());
                    assert(false);
                }
            }
        }
        hl.push(h);
        act.push(a);
        k = k + 1;
    }
    (hl, act)
}

#[verifier::loop_isolation(false)]
fn flatten_styles(line: &StyledLine) -> (styles: Vec<TextStyle>)
    ensures
        styles@ == spans_styles(line.spans@),
{
    let mut styles: Vec<TextStyle> = Vec::new();
    let mut si: usize = 0;
    while si < line.spans.len()
        invariant
            si <= line.spans@.len(),
            styles@ == spans_styles(line.spans@.take(si as int)),
        decreases line.spans@.len() - si,
    {
        let cnt = line.spans[si].content.as_str().unicode_len();
        let st = line.spans[si].style;
        let mut j: usize = 0;
        while j < cnt
            invariant
                j <= cnt,
                cnt == line.spans@[si as int].content@.len(),
                st == line.spans@[si as int].style,
                si < line.spans@.len(),
                styles@ == spans_styles(line.spans@.take(si as int)) + Seq::new(
                    j as nat,
                    |t: int| st,
                ),
            decreases cnt - j,
        {
            styles.push(st);
            proof {
                assert(styles@ =~= spans_styles(line.spans@.take(si as int)) + Seq::new(
                    (j + 1) as nat,
                    |t: int| st,
                ));
            }
            j = j + 1;
        }
        proof {
            assert(line.spans@.take(si + 1).drop_last() =~= line.spans@.take(si as int));
            assert(line.spans@.take(si + 1).last() == line.spans@[si as int]);
            assert(styles@ =~= spans_styles(line.spans@.take(si + 1)));
        }
        si = si + 1;
    }
    proof {
        assert(line.spans@.take(line.spans@.len() as int) =~= line.spans@);
    }
    styles
}

/// Apply the search overlay to one styled line: every character inside an
/// occurrence of the query is restyled (the active occurrence with its
/// own colors), and runs of equal resulting style are coalesced back into
/// single spans. A line without occurrences is returned unchanged.
#[verifier::loop_isolation(false)]
#[verifier::rlimit(80)]
pub fn apply_search_highlight_line(
    line: &StyledLine,
    query: &str,
    active: Option<SearchMatch>,
    line_index: usize,
    theme: &Theme,
) -> (out: StyledLine)
    requires
        query@.len() >= 1,
    ensures
        line_highlight_ok(*line, out, query@, active, line_index as int, *theme),
{
    let text = line_text(line);
    let schars = str_to_chars(text.as_str());
    let qchars = str_to_chars(query);
    let n = schars.len();
    let m = qchars.len();
    let sf = fold_codes(&schars);
    let qf = fold_codes(&qchars);
    // Is there any occurrence at all?
    let mut any = false;
    let mut i: usize = 0;
    if m <= n {
        while i <= n - m
            invariant
                i <= n - m + 1,
                m <= n,
                any == exists|t: int| 0 <= t < i && match_at(text@, query@, t),
            decreases n - m + 1 - i,
        {
            if is_match_at(&sf, &qf, Ghost(text@), Ghost(query@), i) {
                any = true;
            }
            i = i + 1;
        }
    }
    proof {
        if !any && (exists|t: int| match_at(text@, query@, t)) {
            let t = choose|t: int| match_at(text@, query@, t);
            assert(false);
        }
    }
    if !any {
        return clone_styled_line(line);
    }
    let offs = byte_offsets(text.as_str(), &schars);
    let flags = match_flags(
        &schars,
        &sf,
        &qf,
        &offs,
        Ghost(text@),
        Ghost(query@),
        active,
        line_index,
    );
    let hl = flags.0;
    let act = flags.1;
    let styles = flatten_styles(line);
    proof {
        lemma_spans_lengths(line.spans@);
    }
    // Rebuild the line, coalescing equal adjacent styles.
    let ghost expected = Seq::new(
        text@.len(),
        |k: int|
            highlighted_style(
                spans_styles(line.spans@)[k],
                text@,
                query@,
                active,
                line_index as int,
                *theme,
            k,
            ),
    );
    let active_overlay = TextStyle {
        fg: Some(theme.search_fg_active),
        bg: Some(theme.search_bg_active),
        modifiers: 0,
    };
    let plain_overlay = TextStyle {
        fg: Some(theme.search_fg),
        bg: Some(theme.search_bg),
        modifiers: 0,
    };
    let mut out_spans: Vec<StyledSpan> = Vec::new();
    let mut cur = String::new();
    let mut cur_style = TextStyle::plain();
    let mut started = false;
    let mut k: usize = 0;
    while k < n
        invariant
            k <= n,
            n == text@.len(),
            styles@.len() == n,
            hl@.len() == n,
            act@.len() == n,
            started == (cur@.len() > 0),
            !started ==> out_spans@.len() == 0,
            spans_text(out_spans@) + cur@ == text@.take(k as int),
            spans_styles(out_spans@) + Seq::new(cur@.len(), |t: int| cur_style) == expected.take(
                k as int,
            ),
            forall|t: int|
                0 <= t < out_spans@.len() ==> (#[trigger] out_spans@[t]).content@.len() > 0,
            forall|t: int|
                0 <= t < out_spans@.len() - 1 ==> (#[trigger] out_spans@[t]).style
                    != out_spans@[t + 1].style,
            started && out_spans@.len() > 0 ==> out_spans@.last().style != cur_style,
        decreases n - k,
    {
        let base = styles[k];
        let eff = if act[k] {
            base.patch(&active_overlay)
        } else if hl[k] {
            base.patch(&plain_overlay)
        } else {
            base
        };
        proof {
            assert(eff == expected[k as int]);
        }
        let c = schars[k];
        let ghost prev_spans = out_spans@;
        let ghost prev_cur = cur@;
        let ghost prev_style = cur_style;
        if !started {
            crate::textutil::string_push(&mut cur, c);
            cur_style = eff;
            started = true;
            proof {
                assert(spans_text(out_spans@) + cur@ =~= text@.take(k + 1));
                assert(spans_styles(out_spans@) + Seq::new(cur@.len(), |t: int| cur_style)
                    =~= expected.take(k + 1));
            }
        } else if eff == cur_style {
            crate::textutil::string_push(&mut cur, c);
            proof {
                assert(spans_text(out_spans@) + cur@ =~= text@.take(k + 1));
                assert(spans_styles(out_spans@) + Seq::new(cur@.len(), |t: int| cur_style)
                    =~= expected.take(k + 1));
            }
        } else {
            let finished = StyledSpan { content: cur, style: cur_style };
            out_spans.push(finished);
            cur = String::new();
            crate::textutil::string_push(&mut cur, c);
            cur_style = eff;
            proof {
                assert(out_spans@.drop_last() =~= prev_spans);
                assert(out_spans@.last().content@ == prev_cur);
                assert(out_spans@.last().style == prev_style);
                assert(spans_text(out_spans@) == spans_text(prev_spans) + prev_cur);
                assert(spans_styles(out_spans@) == spans_styles(prev_spans) + Seq::new(
                    prev_cur.len(),
                    |t: int| prev_style,
                ));
                assert(cur@ =~= seq![c]);
                assert(spans_text(out_spans@) + cur@ =~= text@.take(k + 1));
                assert(spans_styles(out_spans@) + Seq::new(cur@.len(), |t: int| cur_style)
                    =~= expected.take(k + 1));
            }
        }
        k = k + 1;
    }
    if started {
        let ghost prev_spans = out_spans@;
        let ghost prev_cur = cur@;
        let ghost prev_style = cur_style;
        let finished = StyledSpan { content: cur, style: cur_style };
        out_spans.push(finished);
        proof {
            assert(out_spans@.drop_last() =~= prev_spans);
            assert(out_spans@.last().content@ == prev_cur);
            assert(out_spans@.last().style == prev_style);
            assert(spans_text(out_spans@) == spans_text(prev_spans) + prev_cur);
            assert(spans_styles(out_spans@) == spans_styles(prev_spans) + Seq::new(
                prev_cur.len(),
                |t: int| prev_style,
            ));
        }
    }
    proof {
        assert(text@.take(n as int) =~= text@);
        assert(expected.take(n as int) =~= expected);
        assert(spans_text(out_spans@) =~= text@);
        assert(spans_styles(out_spans@) =~= expected);
    }
    StyledLine { spans: out_spans }
}

/// Apply the search overlay across all lines; an empty query leaves every
/// line untouched, clearing all highlighting.
#[verifier::loop_isolation(false)]
pub fn apply_search_highlight(
    lines: &Vec<StyledLine>,
    query: &str,
    active: Option<SearchMatch>,
    theme: &Theme,
) -> (out: Vec<StyledLine>)
    ensures
        out@.len() == lines@.len(),
        query@.len() == 0 ==> forall|i: int|
            0 <= i < lines@.len() ==> (#[trigger] out@[i]).spans@ == lines@[i].spans@,
        query@.len() > 0 ==> forall|i: int|
            0 <= i < lines@.len() ==> line_highlight_ok(
                lines@[i],
                #[trigger] out@[i],
                query@,
                active,
                i,
                *theme,
            ),
{
    let mut out: Vec<StyledLine> = Vec::new();
    let empty_query = query.unicode_len() == 0;
    let mut i: usize = 0;
    while i < lines.len()
        invariant
            i <= lines@.len(),
            out@.len() == i,
            empty_query == (query@.len() == 0),
            empty_query ==> forall|j: int|
                0 <= j < i ==> (#[trigger] out@[j]).spans@ == lines@[j].spans@,
            !empty_query ==> forall|j: int|
                0 <= j < i ==> line_highlight_ok(
                    lines@[j],
                    #[trigger] out@[j],
                    query@,
                    active,
                    j,
                    *theme,
                ),
        decreases lines@.len() - i,
    {
        if empty_query {
            out.push(clone_styled_line(&lines[i]));
        } else {
            out.push(apply_search_highlight_line(&lines[i], query, active, i, theme));
        }
        i = i + 1;
    }
    out
}

/// Rendered rows of one line at the given width, as the display's own
/// character wrapping counts them: the line's table width (at least one
/// column), divided by the width, rounded up.
pub open spec fn row_estimate(l: Seq<char>, width: int) -> int {
    let w = if text_width(l) < 1 {
        1
    } else {
        text_width(l) as int
    };
    (w + width - 1) / width
}

/// Total estimated rows of a document, before clamping.
pub open spec fn est_rows(lines: Seq<Seq<char>>, width: int) -> int
    decreases lines.len(),
{
    if lines.len() == 0 {
        0
    } else {
        est_rows(lines.drop_last(), width) + row_estimate(lines.last(), width)
    }
}

/// Total estimated rendered rows of a document at the given width,
/// saturated to `u16`; a zero-width viewport renders nothing.
pub open spec fn estimate_spec(lines: Seq<Seq<char>>, width: u16) -> u16 {
    if width == 0 {
        0
    } else if est_rows(lines, width as int) > 0xFFFF {
        0xFFFF as u16
    } else {
        est_rows(lines, width as int) as u16
    }
}

/// Each line's estimate is at least one row, so the total is at least the
/// line count.
pub proof fn lemma_est_rows_at_least(lines: Seq<Seq<char>>, width: int)
    requires
        width >= 1,
    ensures
        est_rows(lines, width) >= lines.len(),
    decreases lines.len(),
{
    if lines.len() > 0 {
        lemma_est_rows_at_least(lines.drop_last(), width);
        let w = if text_width(lines.last()) < 1 {
            1int
        } else {
            text_width(lines.last()) as int
        };
        assert((w + width - 1) / width >= 1) by (nonlinear_arith)
            requires
                w >= 1 && width >= 1,
        ;
    }
}

#[verifier::loop_isolation(false)]
fn text_width_exec(line: &str) -> (w: u128)
    ensures
        w == text_width(line@),
        w < 0x1000000000000000000,
{
    let chars = crate::textutil::str_to_chars(line);
    let mut w: u128 = 0;
    let mut i: usize = 0;
    proof {
        assert(chars@.take(0) =~= Seq::<char>::empty());
    }
    while i < chars.len()
        invariant
            i <= chars@.len(),
            w == text_width(chars@.take(i as int)),
            w <= 255 * (i as u128),
        decreases chars@.len() - i,
    {
        let cw = char_table_width(chars[i]);
        proof {
            assert(chars@.take(i + 1).drop_last() =~= chars@.take(i as int));
            assert(chars@.take(i + 1).last() == chars@[i as int]);
        }
        w = w + (cw as u128);
        i = i + 1;
    }
    proof {
        assert(chars@.take(chars@.len() as int) =~= chars@);
    }
    w
}

/// Estimate the total rendered rows of the document's text at a width, as
/// the display's character wrapping will produce them.
#[verifier::loop_isolation(false)]
pub fn estimate_rendered_lines(lines: &Vec<String>, width: u16) -> (r: u16)
    ensures
        r == estimate_spec(lines@.map_values(|l: String| l@), width),
{
    let ghost linesv = lines@.map_values(|l: String| l@);
    if width == 0 {
        return 0;
    }
    let w128: u128 = width as u128;
    let mut total: u128 = 0;
    let mut i: usize = 0;
    proof {
        assert(linesv.take(0) =~= Seq::<Seq<char>>::empty());
    }
    while i < lines.len()
        invariant
            i <= lines@.len(),
            width >= 1,
            w128 == width as u128,
            linesv == lines@.map_values(|l: String| l@),
            total <= 0x10000,
            total as int == if est_rows(linesv.take(i as int), width as int) > 0x10000 {
                0x10000int
            } else {
                est_rows(linesv.take(i as int), width as int)
            },
        decreases lines@.len() - i,
    {
        let lw = text_width_exec(lines[i].as_str());
        let lwm: u128 = if lw < 1 {
            1
        } else {
            lw
        };
        let rows: u128 = (lwm + w128 - 1) / w128;
        let rows_c: u128 = if rows > 0x10000 {
            0x10000
        } else {
            rows
        };
        proof {
            assert(linesv.take(i + 1).drop_last() =~= linesv.take(i as int));
            assert(linesv.take(i + 1).last() == linesv[i as int]);
            assert(linesv[i as int] == lines@[i as int]@);
            assert(rows as int == row_estimate(linesv[i as int], width as int));
            assert(rows >= 1) by {
                assert((lwm as int + w128 as int - 1) / (w128 as int) >= 1) by (nonlinear_arith)
                    requires
                        lwm as int >= 1 && w128 as int >= 1,
                ;
            }
            lemma_est_rows_at_least(linesv.take(i as int), width as int);
        }
        total = if total + rows_c > 0x10000 {
            0x10000
        } else {
            total + rows_c
        };
        i = i + 1;
    }
    proof {
        assert(linesv.take(linesv.len() as int) =~= linesv);
    }
    if total > 0xFFFF {
        0xFFFF
    } else {
        total as u16
    }
}

} // verus!
