//! Table column sizing and cell wrapping for rendered markdown tables:
//! natural column widths are shrunk to the viewport by proportional
//! scaling plus a greedy redistribution of the leftover columns.

use crate::textutil::str_to_chars;
use vstd::prelude::*;
use vstd::string::*;

verus! {

/// The shortfall of column `i`: how far its current width is below the
/// desired one.
pub open spec fn col_need(want: Seq<usize>, have: Seq<usize>, i: int) -> int {
    if want[i] > have[i] {
        want[i] - have[i]
    } else {
        0
    }
}

/// Scan for the column with the greatest shortfall strictly above `bn`,
/// earliest first: the running best `(bi, bn)` after considering columns
/// `i, i+1, ...`.
pub open spec fn scan_best(want: Seq<usize>, have: Seq<usize>, i: int, bi: int, bn: int) -> (
    int,
    int,
)
    decreases want.len() - i,
{
    if i < 0 || i >= want.len() {
        (bi, bn)
    } else if col_need(want, have, i) > bn {
        scan_best(want, have, i + 1, i, col_need(want, have, i))
    } else {
        scan_best(want, have, i + 1, bi, bn)
    }
}

/// Hand out `rem` leftover width columns one at a time, each to the
/// column furthest below its desired width, until nothing is short.
pub open spec fn redistribute(want: Seq<usize>, have: Seq<usize>, rem: int) -> Seq<usize>
    decreases rem,
{
    if rem <= 0 {
        have
    } else {
        let best = scan_best(want, have, 0, 0, 0);
        if best.1 == 0 {
            have
        } else {
            redistribute(want, have.update(best.0, (have[best.0] + 1) as usize), rem - 1)
        }
    }
}

/// Sum of a width list.
pub open spec fn width_sum(w: Seq<usize>) -> int
    decreases w.len(),
{
    if w.len() == 0 {
        0
    } else {
        width_sum(w.drop_last()) + w.last()
    }
}

/// The widths after fitting to the viewport: unchanged when they already
/// fit (or when there is no viewport to fit), a single column each when
/// even the table frame does not fit, and otherwise scaled down
/// proportionally (one column minimum) with the leftover redistributed
/// greedily to the neediest columns.
pub open spec fn fit_widths_spec(widths: Seq<usize>, col_count: int, max_width: u16) -> Seq<
    usize,
> {
    if max_width == 0 || col_count == 0 {
        widths
    } else if 1 + col_count * 3 >= max_width {
        Seq::new(col_count as nat, |i: int| 1usize)
    } else {
        let available = max_width - (1 + col_count * 3);
        if width_sum(widths) <= available {
            widths
        } else {
            let scaled = Seq::new(
                widths.len(),
                |i: int|
                    (if (widths[i] * available) / width_sum(widths) < 1 {
                        1int
                    } else {
                        (widths[i] * available) / width_sum(widths)
                    }) as usize,
            );
            redistribute(widths, scaled, available - width_sum(scaled))
        }
    }
}

#[verifier::loop_isolation(false)]
fn scan_best_exec(want: &Vec<usize>, have: &Vec<usize>) -> (r: (usize, usize))
    requires
        want@.len() == have@.len(),
    ensures
        (r.0 as int, r.1 as int) == scan_best(want@, have@, 0, 0, 0),
        r.0 < want@.len() || want@.len() == 0,
{
    let mut bi: usize = 0;
    let mut bn: usize = 0;
    let mut i: usize = 0;
    while i < want.len()
        invariant
            i <= want@.len(),
            bi < want@.len() || want@.len() == 0,
            scan_best(want@, have@, 0, 0, 0) == scan_best(
                want@,
                have@,
                i as int,
                bi as int,
                bn as int,
            ),
        decreases want@.len() - i,
    {
        let need: usize = if want[i] > have[i] {
            want[i] - have[i]
        } else {
            0
        };
        if need > bn {
            bn = need;
            bi = i;
        }
        i = i + 1;
    }
    (bi, bn)
}

proof fn lemma_width_sum_parts(w: Seq<usize>, i: int)
    requires
        0 <= i < w.len(),
    ensures
        width_sum(w) >= width_sum(w.take(i)) + w[i],
        width_sum(w.take(i)) >= 0,
    decreases w.len(),
{
    if w.len() > 0 {
        if i == w.len() - 1 {
            assert(w.take(i) =~= w.drop_last());
            lemma_width_sum_nonneg(w.take(i));
        } else {
            lemma_width_sum_parts(w.drop_last(), i);
            assert(w.drop_last().take(i) =~= w.take(i));
        }
    }
}

proof fn lemma_width_sum_nonneg(w: Seq<usize>)
    ensures
        width_sum(w) >= 0,
    decreases w.len(),
{
    if w.len() > 0 {
        lemma_width_sum_nonneg(w.drop_last());
    }
}

/// Fit a table's natural column widths into the viewport width, keeping
/// the result exactly as [`fit_widths_spec`] describes.
#[verifier::loop_isolation(false)]
pub fn fit_table_widths(widths: Vec<usize>, col_count: usize, max_width: u16) -> (r: Vec<usize>)
    ensures
        r@ == fit_widths_spec(widths@, col_count as int, max_width),
{
    if max_width == 0 || col_count == 0 {
        return widths;
    }
    let max_width_us = max_width as usize;
    let overhead128: u128 = 1 + (col_count as u128) * 3;
    if overhead128 >= (max_width_us as u128) {
        let mut ones: Vec<usize> = Vec::new();
        let mut i: usize = 0;
        while i < col_count
            invariant
                i <= col_count,
                ones@.len() == i,
                forall|j: int| 0 <= j < i ==> ones@[j] == 1usize,
            decreases col_count - i,
        {
            ones.push(1);
            i = i + 1;
        }
        proof {
            assert(ones@ =~= Seq::new(col_count as nat, |i: int| 1usize));
        }
        return ones;
    }
    let total_overhead: usize = 1 + col_count * 3;
    let available: usize = max_width_us - total_overhead;
    let mut desired_sum: u128 = 0;
    let mut i: usize = 0;
    while i < widths.len()
        invariant
            i <= widths@.len(),
            desired_sum == width_sum(widths@.take(i as int)),
            desired_sum <= (i as u128) * 0xFFFF_FFFF_FFFF_FFFF,
        decreases widths@.len() - i,
    {
        proof {
            assert(widths@.take(i + 1).drop_last() =~= widths@.take(i as int));
            assert(widths@.take(i + 1).last() == widths@[i as int]);
        }
        desired_sum = desired_sum + (widths[i] as u128);
        i = i + 1;
    }
    proof {
        assert(widths@.take(widths@.len() as int) =~= widths@);
    }
    if desired_sum <= (available as u128) {
        return widths;
    }
    // Scale every column down proportionally, at least one column each.
    let ghost dsum = width_sum(widths@);
    let mut scaled: Vec<usize> = Vec::new();
    let mut k: usize = 0;
    while k < widths.len()
        invariant
            k <= widths@.len(),
            dsum == width_sum(widths@),
            desired_sum == dsum,
            dsum > available >= 1,
            available <= 0xFFFF,
            scaled@.len() == k,
            forall|j: int|
                0 <= j < k ==> #[trigger] scaled@[j] == (if (widths@[j] * available) / dsum < 1 {
                    1int
                } else {
                    (widths@[j] * available) / dsum
                }) as usize,
            forall|j: int| 0 <= j < k ==> #[trigger] scaled@[j] <= available,
        decreases widths@.len() - k,
    {
        proof {
            lemma_width_sum_parts(widths@, k as int);
            assert((widths@[k as int] as u128) * (available as u128) <= 0xFFFF_FFFF_FFFF_FFFF
                * 0xFFFF) by (nonlinear_arith)
                requires
                    (widths@[k as int] as u128) <= 0xFFFF_FFFF_FFFF_FFFF,
                    (available as u128) <= 0xFFFF,
            ;
        }
        let q128: u128 = (widths[k] as u128) * (available as u128) / desired_sum;
        let q: usize = if q128 < 1 {
            1
        } else {
            proof {
                assert((widths@[k as int] * available) / dsum <= available) by (nonlinear_arith)
                    requires
                        dsum > available >= 1,
                        widths@[k as int] <= dsum,
                        widths@[k as int] >= 0,
                ;
                assert(q128 == (widths@[k as int] * available) / dsum);
            }
            q128 as usize
        };
        scaled.push(q);
        k = k + 1;
    }
    let mut used: u128 = 0;
    let mut m: usize = 0;
    while m < scaled.len()
        invariant
            m <= scaled@.len(),
            used == width_sum(scaled@.take(m as int)),
            used <= (m as u128) * 0xFFFF_FFFF_FFFF_FFFF,
        decreases scaled@.len() - m,
    {
        proof {
            assert(scaled@.take(m + 1).drop_last() =~= scaled@.take(m as int));
            assert(scaled@.take(m + 1).last() == scaled@[m as int]);
        }
        used = used + (scaled[m] as u128);
        m = m + 1;
    }
    proof {
        assert(scaled@.take(scaled@.len() as int) =~= scaled@);
        assert(scaled@ =~= Seq::new(
            widths@.len(),
            |i: int|
                (if (widths@[i] * available) / width_sum(widths@) < 1 {
                    1int
                } else {
                    (widths@[i] * available) / width_sum(widths@)
                }) as usize,
        ));
    }
    let mut remaining: usize = if (available as u128) > used {
        available - (used as usize)
    } else {
        0
    };
    proof {
        assert(redistribute(widths@, scaled@, available - width_sum(scaled@)) == redistribute(
            widths@,
            scaled@,
            remaining as int,
        ));
    }
    // Hand leftover columns to the neediest columns, one at a time.
    let mut remaining: usize = if (available as u128) > used {
        available - (used as usize)
    } else {
        0
    };
    proof {
        assert(redistribute(widths@, scaled@, available - width_sum(scaled@)) == redistribute(
            widths@,
            scaled@,
            remaining as int,
        ));
    }
    while remaining > 0
        invariant
            scaled@.len() == widths@.len(),
            remaining <= available,
            available <= 0xFFFF,
            forall|j: int|
                0 <= j < scaled@.len() ==> #[trigger] scaled@[j] + remaining <= 0xFFFF
                    + available,
            fit_widths_spec(widths@, col_count as int, max_width) == redistribute(
                widths@,
                scaled@,
                remaining as int,
            ),
        decreases remaining,
    {
        let ghost before = scaled@;
        let best = scan_best_exec(&widths, &scaled);
        if best.1 == 0 {
            return scaled;
        }
        let bumped = scaled[best.0] + 1;
        scaled.set(best.0, bumped);
        remaining = remaining - 1;
        proof {
            assert(scaled@ == before.update(best.0 as int, (before[best.0 as int] + 1) as usize));
        }
    }
    scaled
}

/// Break one table cell's text into rows of at most `width` characters.
/// Every full row holds exactly `width` characters; the final row holds
/// the remainder; an empty cell still yields one (empty) row. A zero
/// width yields a single empty row.
pub open spec fn wrap_cell_spec(cell: Seq<char>, width: int) -> Seq<Seq<char>>
    decreases cell.len(),
{
    if width < 1 {
        seq![Seq::<char>::empty()]
    } else if cell.len() <= width {
        seq![cell]
    } else {
        seq![cell.take(width)] + wrap_cell_spec(cell.skip(width), width)
    }
}

/// Break a table cell into rows of at most `width` characters each.
#[verifier::loop_isolation(false)]
pub fn wrap_cell(cell: &str, width: usize) -> (r: Vec<String>)
    ensures
        r.deep_view() == wrap_cell_spec(cell@, width as int),
{
    if width == 0 {
        let mut r: Vec<String> = Vec::new();
        r.push(String::new());
        proof {
            assert(r.deep_view() =~= wrap_cell_spec(cell@, 0));
        }
        return r;
    }
    let n = cell.unicode_len();
    let mut r: Vec<String> = Vec::new();
    let mut start: usize = 0;
    proof {
        assert(cell@.skip(0) =~= cell@);
    }
    while n - start > width
        invariant
            start <= n,
            n == cell@.len(),
            width >= 1,
            wrap_cell_spec(cell@, width as int) == r.deep_view() + wrap_cell_spec(
                cell@.skip(start as int),
                width as int,
            ),
        decreases n - start,
    {
        let piece = String::from_str(cell.substring_char(start, start + width));
        proof {
            assert(cell@.skip(start as int).take(width as int) =~= cell@.subrange(
                start as int,
                start + width,
            ));
            assert(cell@.skip(start as int).skip(width as int) =~= cell@.skip(start + width));
        }
        r.push(piece);
        proof {
            assert(r.deep_view() + wrap_cell_spec(cell@.skip(start + width), width as int)
                =~= wrap_cell_spec(cell@, width as int));
        }
        start = start + width;
    }
    let tail = String::from_str(cell.substring_char(start, n));
    proof {
        assert(cell@.skip(start as int) =~= cell@.subrange(start as int, n as int));
    }
    r.push(tail);
    proof {
        assert(r.deep_view() =~= wrap_cell_spec(cell@, width as int));
    }
    r
}

/// Pad a table row with empty cells up to the column count; a row that
/// already has enough cells is unchanged.
#[verifier::loop_isolation(false)]
pub fn pad_row(row: &mut Vec<String>, columns: usize)
    ensures
        old(row)@.len() >= columns ==> final(row)@ == old(row)@,
        old(row)@.len() < columns ==> {
            &&& final(row)@.len() == columns
            &&& final(row)@.take(old(row)@.len() as int) == old(row)@
            &&& forall|i: int|
                old(row)@.len() <= i < columns ==> (#[trigger] final(row)@[i])@
                    == Seq::<char>::empty()
        },
{
    if row.len() >= columns {
        proof {
            assert(row@.take(row@.len() as int) =~= row@);
        }
        return ;
    }
    while row.len() < columns
        invariant
            row@.len() <= columns,
            old(row)@.len() <= row@.len(),
            row@.take(old(row)@.len() as int) == old(row)@,
            forall|i: int|
                old(row)@.len() <= i < row@.len() ==> (#[trigger] row@[i])@
                    == Seq::<char>::empty(),
        decreases columns - row@.len(),
    {
        row.push(String::new());
        proof {
            assert(row@.take(old(row)@.len() as int) =~= old(row)@);
        }
    }
}

} // verus!
