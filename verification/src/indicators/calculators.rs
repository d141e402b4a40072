//! Calculations over a series of bars that use no tracker.

use super::common::{scope, scope_of, total_of};
use crate::fixed::{clamp_i64, div_floor, floor_quot, fx_mul_int, saturate};
use crate::indicators::indicators::vwap::spec_vwap;
use crate::indicators::time::TimeWindow;
use crate::indicators::trackers::{lemma_total_bounds, Entry};
use crate::indicators::window::Window;
use crate::position::sizing::HUNDRED;
use crate::types::ohlcv::Row;
use vstd::prelude::*;

verus! {

/// The typical price times the volume of every bar, saturating.
pub open spec fn money_entries(data: Seq<Row>) -> Seq<Entry> {
    Seq::new(
        data.len(),
        |i: int| (data[i].timestamp, clamp_i64(data[i].spec_typical_price() * data[i].volume)),
    )
}

/// The volume of every bar.
pub open spec fn volume_entries(data: Seq<Row>) -> Seq<Entry> {
    Seq::new(data.len(), |i: int| (data[i].timestamp, data[i].volume))
}

/// The volume-weighted typical price of the part of the series that the
/// window selects; `None` when nothing is selected or no volume traded.
pub open spec fn spec_series_vwap(data: Seq<Row>, window: Window) -> Option<i64> {
    match (scope(money_entries(data), window), scope(volume_entries(data), window)) {
        (Some(money), Some(volume)) => spec_vwap(money, volume),
        _ => None,
    }
}

/// The volume added on every rise of the close and taken off on every fall,
/// over the first `n` bars.
pub open spec fn obv_total(data: Seq<Row>, n: int) -> int
    decreases n,
{
    if n <= 1 {
        0
    } else {
        obv_total(data, n - 1) + (if data[n - 1].close > data[n - 2].close {
            data[n - 1].volume as int
        } else if data[n - 1].close < data[n - 2].close {
            -(data[n - 1].volume as int)
        } else {
            0
        })
    }
}

/// The money flow of the bars from `from` up to `to` whose typical price rose
/// (`rising`) or fell against the bar before.
pub open spec fn flow_total(data: Seq<Row>, from: int, to: int, rising: bool) -> int
    decreases to - from,
{
    if to <= from {
        0
    } else {
        let current = data[to - 1].spec_typical_price();
        let previous = data[to - 2].spec_typical_price();
        let counts = if rising {
            current > previous
        } else {
            current < previous
        };
        flow_total(data, from, to - 1, rising) + (if counts {
            clamp_i64(current * data[to - 1].volume) as int
        } else {
            0
        })
    }
}

/// The index of a positive and a negative flow: `100 * positive / (positive
/// + negative)`, and 100 without negative flow. Flows beyond the range of
/// 64-bit integers saturate; flows that cancel give the lowest value.
pub open spec fn flow_index(positive: int, negative: int) -> i64 {
    let p = clamp_i64(positive);
    let n = clamp_i64(negative);
    if n == 0 {
        HUNDRED
    } else if p + n == 0 {
        i64::MIN
    } else {
        clamp_i64(floor_quot(HUNDRED * p, p + n))
    }
}

/// The money flow index of the last `n` bars, for a window of `n` bars;
/// `None` for any other window and without more than `n` bars.
pub open spec fn spec_mfi(data: Seq<Row>, window: Window) -> Option<i64> {
    match window {
        Window::Bars(n) => if data.len() < 2 || data.len() <= n {
            None
        } else {
            Some(
                flow_index(
                    flow_total(data, data.len() - n, data.len() as int, true),
                    flow_total(data, data.len() - n, data.len() as int, false),
                ),
            )
        },
        _ => None,
    }
}

/// A flow over `k` bars lies within `k` times the range of a value.
pub proof fn lemma_flow_bounds(data: Seq<Row>, from: int, to: int, rising: bool)
    requires
        from <= to,
    ensures
        (to - from) * i64::MIN <= flow_total(data, from, to, rising) <= (to - from) * i64::MAX,
    decreases to - from,
{
    if to > from {
        lemma_flow_bounds(data, from, to - 1, rising);
        let k = to - from;
        assert((k - 1) * i64::MIN + i64::MIN == k * i64::MIN) by (nonlinear_arith);
        assert((k - 1) * i64::MAX + i64::MAX == k * i64::MAX) by (nonlinear_arith);
    }
}

/// The on-balance volume of `n` bars lies within `n` times the range of a
/// volume.
pub proof fn lemma_obv_bounds(data: Seq<Row>, n: int)
    requires
        0 <= n,
    ensures
        -n * 0x8000_0000_0000_0000 <= obv_total(data, n) <= n * 0x8000_0000_0000_0000,
    decreases n,
{
    if n > 1 {
        lemma_obv_bounds(data, n - 1);
        assert((n - 1) * 0x8000_0000_0000_0000 + 0x8000_0000_0000_0000 == n * 0x8000_0000_0000_0000)
            by (nonlinear_arith);
        assert(-(n - 1) * 0x8000_0000_0000_0000 - 0x8000_0000_0000_0000 == -n
            * 0x8000_0000_0000_0000) by (nonlinear_arith);
    } else {
        assert(0 <= n * 0x8000_0000_0000_0000) by (nonlinear_arith)
            requires
                n >= 0,
        ;
    }
}

/// Volume-Weighted Average Price: typical price weighted by volume.
pub fn vwap(data: &[Row], window: TimeWindow) -> (r: Option<i64>)
    ensures
        r == spec_series_vwap(data@, window.spec_window()),
{
    let n: usize = data.len();
    let mut money: Vec<Entry> = Vec::new();
    let mut volume: Vec<Entry> = Vec::new();
    let mut i: usize = 0;
    while i < n
        invariant
            n == data@.len(),
            i <= n,
            money@.len() == i,
            volume@.len() == i,
            forall|k: int| 0 <= k < i ==> money@[k] == money_entries(data@)[k],
            forall|k: int| 0 <= k < i ==> volume@[k] == volume_entries(data@)[k],
        decreases n - i,
    {
        let price: i64 = data[i].typical_price();
        money.push((data[i].timestamp, fx_mul_int(price, data[i].volume)));
        volume.push((data[i].timestamp, data[i].volume));
        i = i + 1;
    }
    assert(money@ =~= money_entries(data@));
    assert(volume@ =~= volume_entries(data@));
    let selected_money: Vec<Entry> = match scope_of(&money, window.to_window()) {
        Some(s) => s,
        None => {
            return None;
        },
    };
    let selected_volume: Vec<Entry> = match scope_of(&volume, window.to_window()) {
        Some(s) => s,
        None => {
            return None;
        },
    };
    let total_volume: i128 = total_of(&selected_volume);
    if total_volume == 0 {
        return None;
    }
    let total_pv: i128 = total_of(&selected_money);
    let a: usize = selected_money.len();
    let b: usize = selected_volume.len();
    proof {
        lemma_total_bounds(selected_money@);
        lemma_total_bounds(selected_volume@);
        assert(a * i64::MIN > i128::MIN && b * i64::MIN > i128::MIN) by (nonlinear_arith)
            requires
                0 <= a <= 0xffff_ffff_ffff_ffff,
                0 <= b <= 0xffff_ffff_ffff_ffff,
        ;
    }
    if total_volume > 0 {
        Some(saturate(div_floor(total_pv, total_volume)))
    } else {
        Some(saturate(div_floor(-total_pv, -total_volume)))
    }
}

/// On-Balance Volume: cumulative volume signed by the direction of the
/// close, saturating; `None` without two bars.
pub fn obv(data: &[Row]) -> (r: Option<i64>)
    ensures
        r == (if data@.len() < 2 {
            None
        } else {
            Some(clamp_i64(obv_total(data@, data@.len() as int)))
        }),
{
    let n: usize = data.len();
    if n < 2 {
        return None;
    }
    let mut obv_value: i128 = 0;
    let mut i: usize = 1;
    while i < n
        invariant
            n == data@.len(),
            1 <= i <= n,
            obv_value == obv_total(data@, i as int),
        decreases n - i,
    {
        proof {
            lemma_obv_bounds(data@, i as int);
            lemma_obv_bounds(data@, i + 1);
            assert((i + 1) * 0x8000_0000_0000_0000 <= i128::MAX) by (nonlinear_arith)
                requires
                    0 <= i < 0xffff_ffff_ffff_ffff,
            ;
        }
        let current_close: i64 = data[i].close;
        let prev_close: i64 = data[i - 1].close;
        if current_close > prev_close {
            obv_value = obv_value + data[i].volume as i128;
        } else if current_close < prev_close {
            obv_value = obv_value - data[i].volume as i128;
        }
        i = i + 1;
    }
    Some(saturate(obv_value))
}

/// The index of a positive and a negative flow.
pub fn index_of_flows(positive: i128, negative: i128) -> (r: i64)
    ensures
        r == flow_index(positive as int, negative as int),
{
    let p: i64 = saturate(positive);
    let n: i64 = saturate(negative);
    if n == 0 {
        return HUNDRED;
    }
    let denominator: i128 = p as i128 + n as i128;
    if denominator == 0 {
        return i64::MIN;
    }
    assert(i128::MIN < HUNDRED * p < i128::MAX) by (nonlinear_arith)
        requires
            HUNDRED == 100_000_000,
            -0x8000_0000_0000_0000 <= p <= 0x7fff_ffff_ffff_ffff,
    ;
    let numerator: i128 = HUNDRED as i128 * p as i128;
    if denominator > 0 {
        saturate(div_floor(numerator, denominator))
    } else {
        saturate(div_floor(-numerator, -denominator))
    }
}

/// Money Flow Index: the relative strength index of volume-weighted typical
/// prices.
pub fn mfi(data: &[Row], window: TimeWindow) -> (r: Option<i64>)
    ensures
        r == spec_mfi(data@, window.spec_window()),
{
    let n: usize = data.len();
    if n < 2 {
        return None;
    }
    let period: usize = match window {
        TimeWindow::Bars(p) => p,
        _ => {
            return None;
        },
    };
    if n <= period {
        return None;
    }
    let start: usize = n - period;
    let mut positive_flow: i128 = 0;
    let mut negative_flow: i128 = 0;
    let mut i: usize = start;
    while i < n
        invariant
            n == data@.len(),
            1 <= start <= i <= n,
            positive_flow == flow_total(data@, start as int, i as int, true),
            negative_flow == flow_total(data@, start as int, i as int, false),
        decreases n - i,
    {
        proof {
            lemma_flow_bounds(data@, start as int, i + 1, true);
            lemma_flow_bounds(data@, start as int, i + 1, false);
            let k = i + 1 - start;
            assert(i128::MIN <= k * i64::MIN && k * i64::MAX <= i128::MAX) by (nonlinear_arith)
                requires
                    0 <= k <= 0xffff_ffff_ffff_ffff,
            ;
        }
        let current_typical: i64 = data[i].typical_price();
        let prev_typical: i64 = data[i - 1].typical_price();
        let money_flow: i64 = fx_mul_int(current_typical, data[i].volume);
        if current_typical > prev_typical {
            positive_flow = positive_flow + money_flow as i128;
        } else if current_typical < prev_typical {
            negative_flow = negative_flow + money_flow as i128;
        }
        i = i + 1;
    }
    Some(index_of_flows(positive_flow, negative_flow))
}

} // verus!
