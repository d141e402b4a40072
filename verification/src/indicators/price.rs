//! Price indicators computed in one pass over a series of bars.

use super::common::{
    ema, field_entries, mean_of, scope_of, sma, spec_ema, spec_sma, spec_std, spec_wma, std_dev,
    wma,
};
use crate::fixed::{clamp_i64, div_floor, fx_add, fx_mul, fx_sub, saturate, spec_fx_mul};
use crate::indicators::fields::{CommonField, PriceField};
use crate::indicators::indicators::rsi::{lemma_rsi_range, spec_rsi};
use crate::indicators::time::TimeWindow;
use crate::indicators::trackers::change::{
    change_between, gains, lemma_gains_losses_bounds, losses, spec_change,
};
use crate::indicators::trackers::Entry;
use crate::indicators::window::Window;
use crate::position::sizing::HUNDRED;
use crate::types::ohlcv::Row;
use vstd::prelude::*;

verus! {

/// The true range of every bar but the first, stamped with the bar.
pub open spec fn true_range_entries(data: Seq<Row>) -> Seq<Entry> {
    Seq::new(
        (data.len() - 1) as nat,
        |i: int| (data[i + 1].timestamp, data[i + 1].spec_true_range(&data[i])),
    )
}

/// The change of every entry but the first from the entry before it.
pub open spec fn change_entries(s: Seq<Entry>) -> Seq<Entry> {
    Seq::new((s.len() - 1) as nat, |i: int| (s[i + 1].0, clamp_i64(s[i + 1].1 - s[i].1)))
}

/// The middle, upper and lower band: the average, and the average plus and
/// minus `num_std_dev` standard deviations of the close.
pub open spec fn spec_bollinger(
    data: Seq<Row>,
    window: Window,
    field: PriceField,
    num_std_dev: i64,
) -> Option<(i64, i64, i64)> {
    match spec_sma(field_entries(data, field.spec_common()), window) {
        None => None,
        Some(middle) => match spec_std(field_entries(data, CommonField::Close), window) {
            None => None,
            Some(std) => Some(
                (
                    middle,
                    clamp_i64(middle + spec_fx_mul(num_std_dev, std)),
                    clamp_i64(middle - spec_fx_mul(num_std_dev, std)),
                ),
            ),
        },
    }
}

/// The percentage change of the last value from the value `periods` bars
/// before it; `None` without that many bars, and when that value is zero.
pub open spec fn spec_roc(s: Seq<Entry>, periods: usize) -> Option<i64> {
    if s.len() <= periods {
        None
    } else if s[s.len() - periods - 1].1 == 0 {
        None
    } else {
        Some(spec_change(true, s[s.len() - periods - 1].1, s.last().1))
    }
}

/// The index of the last `n` changes of a series, for a window of `n` bars;
/// `None` for any other window, for `n` zero, and without more than `n`
/// bars.
pub open spec fn spec_series_rsi(s: Seq<Entry>, window: Window) -> Option<i64> {
    match window {
        Window::Bars(n) => if s.len() < 2 || s.len() <= n {
            None
        } else {
            spec_rsi(change_entries(s).subrange(s.len() - 1 - n, s.len() - 1))
        },
        _ => None,
    }
}

/// Simple Moving Average for price.
pub fn price_sma(data: &[Row], window: TimeWindow, field: PriceField) -> (r: Option<i64>)
    ensures
        r == spec_sma(field_entries(data@, field.spec_common()), window.spec_window()),
{
    sma(data, window, field.to_common())
}

/// Exponential Moving Average for price.
pub fn price_ema(
    data: &[Row],
    window: TimeWindow,
    field: PriceField,
    previous_ema: Option<i64>,
) -> (r: Option<i64>)
    ensures
        r == spec_ema(
            field_entries(data@, field.spec_common()),
            window.spec_window(),
            previous_ema,
        ),
{
    ema(data, window, field.to_common(), previous_ema)
}

/// Weighted Moving Average for price.
pub fn price_wma(data: &[Row], window: TimeWindow, field: PriceField) -> (r: Option<i64>)
    ensures
        r == spec_wma(field_entries(data@, field.spec_common()), window.spec_window()),
{
    wma(data, window, field.to_common())
}

/// Standard deviation for price.
pub fn price_std_dev(data: &[Row], window: TimeWindow, field: PriceField) -> (r: Option<i64>)
    ensures
        r == spec_std(field_entries(data@, field.spec_common()), window.spec_window()),
{
    std_dev(data, window, field.to_common())
}

/// Bollinger Bands - returns (middle, upper, lower).
pub fn bollinger_bands(data: &[Row], window: TimeWindow, field: PriceField, num_std_dev: i64) -> (r:
    Option<(i64, i64, i64)>)
    ensures
        r == spec_bollinger(data@, window.spec_window(), field, num_std_dev),
{
    let middle: i64 = match price_sma(data, window, field) {
        Some(m) => m,
        None => {
            return None;
        },
    };
    let std: i64 = match price_std_dev(data, window, PriceField::Close) {
        Some(s) => s,
        None => {
            return None;
        },
    };
    let width: i64 = fx_mul(num_std_dev, std);
    Some((middle, fx_add(middle, width), fx_sub(middle, width)))
}

/// Average True Range: the average of the true ranges over a window; `None`
/// without two bars.
pub fn atr(data: &[Row], window: TimeWindow) -> (r: Option<i64>)
    ensures
        r == (if data@.len() < 2 {
            None
        } else {
            spec_sma(true_range_entries(data@), window.spec_window())
        }),
{
    let n: usize = data.len();
    if n < 2 {
        return None;
    }
    let mut ranges: Vec<Entry> = Vec::new();
    let mut i: usize = 1;
    while i < n
        invariant
            n == data@.len(),
            1 <= i <= n,
            ranges@.len() == i - 1,
            forall|k: int| 0 <= k < i - 1 ==> ranges@[k] == true_range_entries(data@)[k],
        decreases n - i,
    {
        ranges.push((data[i].timestamp, data[i].true_range(&data[i - 1])));
        i = i + 1;
    }
    assert(ranges@ =~= true_range_entries(data@));
    match scope_of(&ranges, window.to_window()) {
        Some(selected) => mean_of(&selected),
        None => None,
    }
}

/// Rate of Change: percentage change over `periods` bars.
pub fn roc(data: &[Row], periods: usize, field: PriceField) -> (r: Option<i64>)
    ensures
        r == spec_roc(field_entries(data@, field.spec_common()), periods),
{
    let n: usize = data.len();
    if n <= periods {
        return None;
    }
    let common: CommonField = field.to_common();
    let current: i64 = common.extract(&data[n - 1]);
    let previous: i64 = common.extract(&data[n - periods - 1]);
    if previous == 0 {
        return None;
    }
    Some(change_between(true, previous, current))
}

/// The index of a window of changes.
pub fn rsi_of(changes: &Vec<Entry>) -> (r: Option<i64>)
    ensures
        r == spec_rsi(changes@),
{
    let n: usize = changes.len();
    if n == 0 {
        return None;
    }
    let mut gain: i128 = 0;
    let mut loss: i128 = 0;
    let mut i: usize = 0;
    while i < n
        invariant
            n == changes@.len(),
            i <= n,
            gain == gains(changes@.take(i as int)),
            loss == losses(changes@.take(i as int)),
        decreases n - i,
    {
        let e: Entry = changes[i];
        proof {
            assert(changes@.take(i + 1).drop_last() =~= changes@.take(i as int));
            lemma_gains_losses_bounds(changes@.take(i + 1));
            assert((i + 1) * 0x8000_0000_0000_0000 <= i128::MAX && (i + 1) * i64::MAX <= i128::MAX)
                by (nonlinear_arith)
                requires
                    0 <= i < usize::MAX,
            ;
        }
        if e.1 > 0 {
            gain = gain + e.1 as i128;
        }
        if e.1 < 0 {
            loss = loss - e.1 as i128;
        }
        i = i + 1;
    }
    assert(changes@.take(n as int) =~= changes@);
    let avg_gain: i64 = saturate(div_floor(gain, n as i128));
    let avg_loss: i64 = saturate(div_floor(loss, n as i128));
    if avg_loss == 0 {
        return Some(HUNDRED);
    }
    proof {
        lemma_gains_losses_bounds(changes@);
        let k = n as int;
        let g = gains(changes@);
        let l = losses(changes@);
        assert(g / k >= 0 && l / k >= 0) by (nonlinear_arith)
            requires
                k > 0,
                g >= 0,
                l >= 0,
        ;
        lemma_rsi_range(avg_gain, avg_loss);
    }
    let numerator: i128 = HUNDRED as i128 * avg_gain as i128;
    let denominator: i128 = avg_gain as i128 + avg_loss as i128;
    Some(saturate(div_floor(numerator, denominator)))
}

/// Relative Strength Index of the last bars of a series.
pub fn rsi(data: &[Row], window: TimeWindow, field: PriceField) -> (r: Option<i64>)
    ensures
        r == spec_series_rsi(field_entries(data@, field.spec_common()), window.spec_window()),
{
    let n: usize = data.len();
    if n < 2 {
        return None;
    }
    let period: usize = match window {
        TimeWindow::Bars(p) => p,
        _ => {
            return None;
        },
    };
    if n <= period {
        return None;
    }
    let common: CommonField = field.to_common();
    let ghost s = field_entries(data@, common);
    let start: usize = n - period;
    let mut changes: Vec<Entry> = Vec::new();
    let mut i: usize = start;
    while i < n
        invariant
            n == data@.len(),
            1 <= start <= i <= n,
            s == field_entries(data@, common),
            changes@.len() == i - start,
            forall|k: int| 0 <= k < i - start ==> changes@[k] == change_entries(s)[start - 1 + k],
        decreases n - i,
    {
        let current: i64 = common.extract(&data[i]);
        let previous: i64 = common.extract(&data[i - 1]);
        changes.push((data[i].timestamp, fx_sub(current, previous)));
        i = i + 1;
    }
    assert(changes@ =~= change_entries(s).subrange(n - 1 - period, n - 1));
    assert(s =~= field_entries(data@, field.spec_common()));
    rsi_of(&changes)
}

} // verus!
