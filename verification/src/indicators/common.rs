//! Indicators computed in one pass over a series of bars.
//!
//! Each function looks at the part of the series that its window selects: a
//! count window selects the last `n` bars and needs that many, a duration
//! window selects the bars within the duration before the last bar.

use crate::fixed::{clamp_i64, clamp_u128, div_floor, floor_sqrt, isqrt, saturate};
use crate::indicators::fields::CommonField;
use crate::indicators::time::TimeWindow;
use crate::indicators::trackers::variance::{lemma_sq_dev_nonnegative, sq_dev_from, sum_sq_dev};
use crate::indicators::trackers::{lemma_mean_fits, lemma_total_fits, mean, total, Entry};
use crate::indicators::window::Window;
use crate::types::ohlcv::Row;
use vstd::prelude::*;

verus! {

/// The timestamp and the value of `field` of every bar.
pub open spec fn field_entries(data: Seq<Row>, field: CommonField) -> Seq<Entry> {
    Seq::new(data.len(), |i: int| (data[i].timestamp, field.spec_extract(data[i])))
}

/// The entries of `s` whose timestamp lies in the window that ends at
/// `reference`, in their order.
pub open spec fn within(s: Seq<Entry>, window: Window, reference: i64) -> Seq<Entry>
    decreases s.len(),
{
    if s.len() == 0 {
        Seq::empty()
    } else {
        let rest = within(s.drop_last(), window, reference);
        if window.spec_contains(reference, s.last().0) {
            rest.push(s.last())
        } else {
            rest
        }
    }
}

/// The part of a series that a window selects; `None` for an empty series and
/// for a count window that asks for more bars than there are.
pub open spec fn scope(s: Seq<Entry>, window: Window) -> Option<Seq<Entry>> {
    if s.len() == 0 {
        None
    } else {
        match window {
            Window::Bars(n) => if s.len() < n {
                None
            } else {
                Some(s.subrange(s.len() - n, s.len() as int))
            },
            _ => Some(within(s, window, s.last().0)),
        }
    }
}

/// The mean of the selected part; `None` when nothing is selected.
pub open spec fn spec_sma(s: Seq<Entry>, window: Window) -> Option<i64> {
    match scope(s, window) {
        Some(selected) => mean(selected),
        None => None,
    }
}

/// The smoothing period of a window: the count of bars, or the number of
/// minutes, hours or days; zero for a negative number.
pub open spec fn spec_period(window: Window) -> int {
    match window {
        Window::Bars(n) => n as int,
        Window::Minutes(m) => if m > 0 {
            m as int
        } else {
            0
        },
        Window::Hours(h) => if h > 0 {
            h as int
        } else {
            0
        },
        Window::Days(d) => if d > 0 {
            d as int
        } else {
            0
        },
    }
}

/// The exponential average after `current`: the previous average moved
/// towards `current` by `2 / (period + 1)` of their distance. Without a
/// previous average it starts as the simple average.
pub open spec fn spec_ema(s: Seq<Entry>, window: Window, previous_ema: Option<i64>) -> Option<i64> {
    if s.len() == 0 || spec_period(window) == 0 {
        None
    } else {
        match previous_ema {
            Some(prev) => Some(
                clamp_i64(prev + (2 * (s.last().1 - prev)) / (spec_period(window) + 1)),
            ),
            None => spec_sma(s, window),
        }
    }
}

/// The sum of the values of `s`, each weighted by its place counted from 1.
pub open spec fn weighted_total(s: Seq<Entry>) -> int
    decreases s.len(),
{
    if s.len() == 0 {
        0
    } else {
        weighted_total(s.drop_last()) + s.len() * s.last().1
    }
}

/// The sum of the weights `1 + 2 + ... + n`.
pub open spec fn weight_sum(n: int) -> int
    decreases n,
{
    if n <= 0 {
        0
    } else {
        weight_sum(n - 1) + n
    }
}

/// The most entries that a weighted average takes: with more, the weighted
/// sum may leave the range of 128-bit integers.
pub const WMA_LIMIT: usize = 0xffff_ffff;

/// The linearly weighted mean of the selected part, the latest entry
/// weighing most; `None` when nothing is selected, and when more than
/// `WMA_LIMIT` entries are.
pub open spec fn spec_wma(s: Seq<Entry>, window: Window) -> Option<i64> {
    match scope(s, window) {
        Some(selected) => if selected.len() == 0 || selected.len() > WMA_LIMIT {
            None
        } else {
            Some(clamp_i64(weighted_total(selected) / weight_sum(selected.len() as int)))
        },
        None => None,
    }
}

/// The standard deviation of the selected part; `None` when nothing is
/// selected.
pub open spec fn spec_std(s: Seq<Entry>, window: Window) -> Option<i64> {
    match scope(s, window) {
        Some(selected) => if selected.len() == 0 {
            None
        } else {
            Some(
                clamp_i64(
                    floor_sqrt((clamp_u128(sum_sq_dev(selected)) as int) / (selected.len() as int)),
                ),
            )
        },
        None => None,
    }
}

/// The timestamp and the value of `field` of every bar.
pub fn entries_of(data: &[Row], field: CommonField) -> (r: Vec<Entry>)
    ensures
        r@ == field_entries(data@, field),
{
    let mut out: Vec<Entry> = Vec::new();
    let n: usize = data.len();
    let mut i: usize = 0;
    while i < n
        invariant
            n == data@.len(),
            i <= n,
            out@.len() == i,
            forall|k: int| 0 <= k < i ==> out@[k] == field_entries(data@, field)[k],
        decreases n - i,
    {
        out.push((data[i].timestamp, field.extract(&data[i])));
        i = i + 1;
    }
    assert(out@ =~= field_entries(data@, field));
    out
}

/// The part of a series that a window selects.
pub fn scope_of(entries: &Vec<Entry>, window: Window) -> (r: Option<Vec<Entry>>)
    ensures
        match scope(entries@, window) {
            Some(selected) => r.is_some() && r.unwrap()@ == selected,
            None => r.is_none(),
        },
{
    let len: usize = entries.len();
    if len == 0 {
        return None;
    }
    let mut out: Vec<Entry> = Vec::new();
    match window {
        Window::Bars(n) => {
            if len < n {
                return None;
            }
            let start: usize = len - n;
            let mut i: usize = start;
            while i < len
                invariant
                    len == entries@.len(),
                    start <= i <= len,
                    out@ == entries@.subrange(start as int, i as int),
                decreases len - i,
            {
                out.push(entries[i]);
                assert(out@ =~= entries@.subrange(start as int, i + 1));
                i = i + 1;
            }
            Some(out)
        },
        _ => {
            let reference: i64 = entries[len - 1].0;
            let mut i: usize = 0;
            proof {
                assert(entries@.take(0) =~= Seq::<Entry>::empty());
            }
            while i < len
                invariant
                    len == entries@.len(),
                    i <= len,
                    !(window is Bars),
                    out@ == within(entries@.take(i as int), window, reference),
                decreases len - i,
            {
                proof {
                    assert(entries@.take(i + 1).drop_last() =~= entries@.take(i as int));
                    assert(entries@.take(i + 1).last() == entries@[i as int]);
                }
                if window.contains(reference, entries[i].0) {
                    out.push(entries[i]);
                }
                i = i + 1;
            }
            assert(entries@.take(len as int) =~= entries@);
            Some(out)
        },
    }
}

/// The sum of the values of `entries`.
pub fn total_of(entries: &Vec<Entry>) -> (r: i128)
    ensures
        r == total(entries@),
{
    let n: usize = entries.len();
    let mut acc: i128 = 0;
    let mut i: usize = 0;
    while i < n
        invariant
            n == entries@.len(),
            i <= n,
            acc == total(entries@.take(i as int)),
        decreases n - i,
    {
        proof {
            assert(entries@.take(i + 1).drop_last() =~= entries@.take(i as int));
            lemma_total_fits(entries@.take(i + 1));
        }
        acc = acc + entries[i].1 as i128;
        i = i + 1;
    }
    assert(entries@.take(n as int) =~= entries@);
    acc
}

/// The mean of the values of `entries`, rounded down.
pub fn mean_of(entries: &Vec<Entry>) -> (r: Option<i64>)
    ensures
        r == mean(entries@),
{
    let n: usize = entries.len();
    if n == 0 {
        None
    } else {
        proof {
            lemma_mean_fits(entries@);
        }
        Some(saturate(div_floor(total_of(entries), n as i128)))
    }
}

/// The sum of squared deviations from the mean, saturating.
pub fn squares_of(entries: &Vec<Entry>) -> (r: u128)
    ensures
        r == clamp_u128(sum_sq_dev(entries@)),
{
    let n: usize = entries.len();
    let m: i64 = match mean_of(entries) {
        Some(m) => m,
        None => {
            return 0;
        },
    };
    let mut squares: u128 = 0;
    let mut j: usize = 0;
    while j < n
        invariant
            n == entries@.len(),
            j <= n,
            squares == clamp_u128(sq_dev_from(entries@.take(j as int), m as int)),
        decreases n - j,
    {
        let e: Entry = entries[j];
        let diff: i128 = e.1 as i128 - m as i128;
        let dist: u128 = if diff >= 0 {
            diff as u128
        } else {
            (-diff) as u128
        };
        proof {
            assert(entries@.take(j + 1).drop_last() =~= entries@.take(j as int));
            lemma_sq_dev_nonnegative(entries@.take(j as int), m as int);
            assert(dist * dist == (e.1 - m) * (e.1 - m) && dist * dist <= 0xffff_ffff_ffff_ffff
                * 0xffff_ffff_ffff_ffff) by (nonlinear_arith)
                requires
                    dist == diff || dist == -diff,
                    diff == e.1 - m,
                    0 <= dist <= 0xffff_ffff_ffff_ffff,
            ;
        }
        squares = squares.saturating_add(dist * dist);
        j = j + 1;
    }
    assert(entries@.take(n as int) =~= entries@);
    squares
}

/// Simple Moving Average: the arithmetic mean of a field over a window.
pub fn sma(data: &[Row], window: TimeWindow, field: CommonField) -> (r: Option<i64>)
    ensures
        r == spec_sma(field_entries(data@, field), window.spec_window()),
{
    let entries: Vec<Entry> = entries_of(data, field);
    match scope_of(&entries, window.to_window()) {
        Some(selected) => mean_of(&selected),
        None => None,
    }
}

/// The smoothing period of a window.
pub fn period_of(window: TimeWindow) -> (r: u64)
    ensures
        r == spec_period(window.spec_window()),
{
    match window {
        TimeWindow::Bars(n) => n as u64,
        TimeWindow::Minutes(m) => if m > 0 {
            m as u64
        } else {
            0
        },
        TimeWindow::Hours(h) => if h > 0 {
            h as u64
        } else {
            0
        },
        TimeWindow::Days(d) => if d > 0 {
            d as u64
        } else {
            0
        },
    }
}

/// Exponential Moving Average: gives more weight to recent values.
pub fn ema(data: &[Row], window: TimeWindow, field: CommonField, previous_ema: Option<i64>) -> (r:
    Option<i64>)
    ensures
        r == spec_ema(field_entries(data@, field), window.spec_window(), previous_ema),
{
    let n: usize = data.len();
    if n == 0 {
        return None;
    }
    let period: u64 = period_of(window);
    if period == 0 {
        return None;
    }
    let current: i64 = field.extract(&data[n - 1]);
    match previous_ema {
        Some(prev) => {
            let twice: i128 = 2 * (current as i128 - prev as i128);
            let step: i128 = div_floor(twice, period as i128 + 1);
            assert(-0x2_0000_0000_0000_0000 <= step <= 0x2_0000_0000_0000_0000) by (nonlinear_arith)
                requires
                    step == (twice as int) / (period as int + 1),
                    period >= 1,
                    -0x2_0000_0000_0000_0000 <= twice <= 0x2_0000_0000_0000_0000,
            ;
            Some(saturate(prev as i128 + step))
        },
        None => sma(data, window, field),
    }
}

/// The weighted sum of `n` values lies within the sum of the weights times
/// the largest magnitude of a value, and within 128 bits for `n` up to
/// `WMA_LIMIT`.
pub proof fn lemma_weighted_total_bounds(s: Seq<Entry>)
    requires
        s.len() <= WMA_LIMIT,
    ensures
        -weight_sum(s.len() as int) * 0x8000_0000_0000_0000 <= weighted_total(s) <= weight_sum(
            s.len() as int,
        ) * 0x8000_0000_0000_0000,
        0 <= weight_sum(s.len() as int) <= s.len() * s.len(),
        s.len() > 0 ==> weight_sum(s.len() as int) >= 1,
        i128::MIN <= weighted_total(s) <= i128::MAX,
    decreases s.len(),
{
    let n = s.len() as int;
    if s.len() > 0 {
        lemma_weighted_total_bounds(s.drop_last());
        let v = s.last().1 as int;
        let w = weight_sum(n - 1);
        assert(-n * 0x8000_0000_0000_0000 <= n * v <= n * 0x8000_0000_0000_0000)
            by (nonlinear_arith)
            requires
                n >= 0,
                -0x8000_0000_0000_0000 <= v <= 0x8000_0000_0000_0000,
        ;
        assert((w + n) * 0x8000_0000_0000_0000 == w * 0x8000_0000_0000_0000 + n
            * 0x8000_0000_0000_0000) by (nonlinear_arith);
        assert(w + n <= n * n) by (nonlinear_arith)
            requires
                w <= (n - 1) * (n - 1),
                n >= 1,
        ;
    }
    let w = weight_sum(n);
    assert(w * 0x8000_0000_0000_0000 <= 0xffff_ffff * 0xffff_ffff * 0x8000_0000_0000_0000)
        by (nonlinear_arith)
        requires
            0 <= w <= n * n,
            0 <= n <= 0xffff_ffff,
    ;
}

/// Weighted Moving Average: linear weights, the most recent bar weighing
/// most.
pub fn wma(data: &[Row], window: TimeWindow, field: CommonField) -> (r: Option<i64>)
    ensures
        r == spec_wma(field_entries(data@, field), window.spec_window()),
{
    let entries: Vec<Entry> = entries_of(data, field);
    let selected: Vec<Entry> = match scope_of(&entries, window.to_window()) {
        Some(selected) => selected,
        None => {
            return None;
        },
    };
    let n: usize = selected.len();
    if n == 0 || n > WMA_LIMIT {
        return None;
    }
    let mut weighted: i128 = 0;
    let mut weights: i128 = 0;
    let mut i: usize = 0;
    while i < n
        invariant
            n == selected@.len(),
            n <= WMA_LIMIT,
            i <= n,
            weighted == weighted_total(selected@.take(i as int)),
            weights == weight_sum(i as int),
            0 <= weights <= i * i,
        decreases n - i,
    {
        proof {
            assert(selected@.take(i + 1).drop_last() =~= selected@.take(i as int));
            lemma_weighted_total_bounds(selected@.take(i + 1));
            assert(i * i <= 0xffff_ffff * 0xffff_ffff) by (nonlinear_arith)
                requires
                    0 <= i <= 0xffff_ffff,
            ;
            let v = selected@[i as int].1 as int;
            assert(-0x1_0000_0000 * 0x8000_0000_0000_0000 <= (i + 1) * v <= 0x1_0000_0000
                * 0x8000_0000_0000_0000) by (nonlinear_arith)
                requires
                    0 <= i < 0xffff_ffff,
                    -0x8000_0000_0000_0000 <= v <= 0x8000_0000_0000_0000,
            ;
        }
        weighted = weighted + (i as i128 + 1) * selected[i].1 as i128;
        weights = weights + (i as i128 + 1);
        i = i + 1;
        assert(weights <= i * i) by {
            lemma_weighted_total_bounds(selected@.take(i as int));
        }
    }
    assert(selected@.take(n as int) =~= selected@);
    proof {
        lemma_weighted_total_bounds(selected@);
    }
    Some(saturate(div_floor(weighted, weights)))
}

/// Standard deviation of a field over a window.
pub fn std_dev(data: &[Row], window: TimeWindow, field: CommonField) -> (r: Option<i64>)
    ensures
        r == spec_std(field_entries(data@, field), window.spec_window()),
{
    let entries: Vec<Entry> = entries_of(data, field);
    let selected: Vec<Entry> = match scope_of(&entries, window.to_window()) {
        Some(selected) => selected,
        None => {
            return None;
        },
    };
    let n: usize = selected.len();
    if n == 0 {
        return None;
    }
    let root: u64 = isqrt(squares_of(&selected) / n as u128);
    if root > i64::MAX as u64 {
        Some(i64::MAX)
    } else {
        Some(root as i64)
    }
}

} // verus!
