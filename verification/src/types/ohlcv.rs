//! The bar record that every component consumes.

use crate::fixed::{clamp_i64, div_floor, fx_mul_int, fx_sub, saturate, SCALE};
use vstd::prelude::*;

verus! {

/// One OHLCV observation for one ticker. Prices are fixed-point, `volume` is a
/// plain count of shares and `timestamp` counts nanoseconds.
#[derive(Debug, Clone)]
pub struct Row {
    pub timestamp: i64,
    pub open: i64,
    pub high: i64,
    pub low: i64,
    pub close: i64,
    pub volume: i64,
    pub ticker: String,
}

/// The five raw fields of a bar.
#[derive(Debug, Clone, Copy, PartialEq, Eq, Structural)]
pub enum OHLCV {
    Open,
    High,
    Low,
    Close,
    Volume,
}

impl OHLCV {
    /// All five fields, in their usual order.
    pub fn all() -> (r: Vec<OHLCV>)
        ensures
            r@ == seq![OHLCV::Open, OHLCV::High, OHLCV::Low, OHLCV::Close, OHLCV::Volume],
    {
        let mut fields: Vec<OHLCV> = Vec::new();
        fields.push(OHLCV::Open);
        fields.push(OHLCV::High);
        fields.push(OHLCV::Low);
        fields.push(OHLCV::Close);
        fields.push(OHLCV::Volume);
        assert(fields@ =~= seq![OHLCV::Open, OHLCV::High, OHLCV::Low, OHLCV::Close, OHLCV::Volume]);
        fields
    }
}

/// The larger of two values.
pub open spec fn max2(a: int, b: int) -> int {
    if a >= b {
        a
    } else {
        b
    }
}

/// The absolute value of the saturated difference `a - b`, itself saturated.
pub open spec fn abs_diff(a: i64, b: i64) -> i64 {
    let d = clamp_i64(a - b);
    if d >= 0 {
        d
    } else {
        clamp_i64(-d)
    }
}

impl Row {
    /// The fixed-point value of a raw field; `Volume` is the share count
    /// scaled to fixed point, saturating.
    pub open spec fn spec_get_field(&self, field: OHLCV) -> i64 {
        match field {
            OHLCV::Open => self.open,
            OHLCV::High => self.high,
            OHLCV::Low => self.low,
            OHLCV::Close => self.close,
            OHLCV::Volume => clamp_i64(self.volume * SCALE),
        }
    }

    /// `(high + low + close) / 3`, rounded down.
    pub open spec fn spec_typical_price(&self) -> i64 {
        ((self.high + self.low + self.close) / 3) as i64
    }

    /// `(high + low + 2 * close) / 4`, rounded down.
    pub open spec fn spec_weighted_close(&self) -> i64 {
        ((self.high + self.low + self.close + self.close) / 4) as i64
    }

    /// `(high + low) / 2`, rounded down.
    pub open spec fn spec_median_price(&self) -> i64 {
        ((self.high + self.low) / 2) as i64
    }

    /// The largest of `high - low`, `|high - previous close|` and
    /// `|low - previous close|`.
    pub open spec fn spec_true_range(&self, previous: &Row) -> i64 {
        max2(
            max2(clamp_i64(self.high - self.low) as int, abs_diff(self.high, previous.close) as int),
            abs_diff(self.low, previous.close) as int,
        ) as i64
    }

    /// A copy of this bar.
    pub fn duplicate(&self) -> (r: Row)
        ensures
            r == *self,
    {
        Row {
            timestamp: self.timestamp,
            open: self.open,
            high: self.high,
            low: self.low,
            close: self.close,
            volume: self.volume,
            ticker: self.ticker.clone(),
        }
    }

    /// Get a specific OHLCV field value.
    pub fn get_field(&self, field: OHLCV) -> (r: i64)
        ensures
            r == self.spec_get_field(field),
    {
        match field {
            OHLCV::Open => self.open,
            OHLCV::High => self.high,
            OHLCV::Low => self.low,
            OHLCV::Close => self.close,
            OHLCV::Volume => fx_mul_int(self.volume, SCALE),
        }
    }

    /// Typical price: (High + Low + Close) / 3.
    pub fn typical_price(&self) -> (r: i64)
        ensures
            r == self.spec_typical_price(),
    {
        let total: i128 = self.high as i128 + self.low as i128 + self.close as i128;
        saturate(div_floor(total, 3))
    }

    /// Weighted close: (High + Low + Close + Close) / 4.
    pub fn weighted_close(&self) -> (r: i64)
        ensures
            r == self.spec_weighted_close(),
    {
        let total: i128 = self.high as i128 + self.low as i128 + self.close as i128
            + self.close as i128;
        saturate(div_floor(total, 4))
    }

    /// Median price: (High + Low) / 2.
    pub fn median_price(&self) -> (r: i64)
        ensures
            r == self.spec_median_price(),
    {
        let total: i128 = self.high as i128 + self.low as i128;
        saturate(div_floor(total, 2))
    }

    /// The true range of this bar against the bar before it.
    pub fn true_range(&self, previous: &Row) -> (r: i64)
        ensures
            r == self.spec_true_range(previous),
    {
        let h_l: i64 = fx_sub(self.high, self.low);
        let h_pc: i64 = abs_saturating(fx_sub(self.high, previous.close));
        let l_pc: i64 = abs_saturating(fx_sub(self.low, previous.close));
        let first: i64 = if h_l >= h_pc {
            h_l
        } else {
            h_pc
        };
        if first >= l_pc {
            first
        } else {
            l_pc
        }
    }
}

/// The bars of `data` stamped within `window_nanos` before `reference`, up to
/// `reference` itself, in their order.
pub open spec fn rows_within(data: Seq<Row>, reference: i64, window_nanos: i64) -> Seq<Row>
    decreases data.len(),
{
    if data.len() == 0 {
        Seq::empty()
    } else {
        let rest = rows_within(data.drop_last(), reference, window_nanos);
        if reference - window_nanos <= data.last().timestamp <= reference {
            rest.push(data.last())
        } else {
            rest
        }
    }
}

/// The bars behind a sequence of references.
pub open spec fn rows_of(refs: Seq<&Row>) -> Seq<Row> {
    Seq::new(refs.len(), |i: int| *refs[i])
}

/// Helper methods for working with slices of bars.
pub trait DataWindow {
    /// The bars as a sequence.
    spec fn spec_rows(&self) -> Seq<Row>;

    /// Filter rows within a time window from a reference timestamp.
    fn filter_by_time_window(&self, reference_timestamp: i64, window_nanos: i64) -> (r: Vec<&Row>)
        ensures
            rows_of(r@) == rows_within(self.spec_rows(), reference_timestamp, window_nanos),
    ;

    /// Get the last N bars, or all bars if there are fewer.
    fn last_n_bars(&self, n: usize) -> (r: &[Row])
        ensures
            r@ == (if self.spec_rows().len() > n {
                self.spec_rows().subrange(
                    self.spec_rows().len() - n,
                    self.spec_rows().len() as int,
                )
            } else {
                self.spec_rows()
            }),
    ;

    /// Check if data has enough bars for a given window size.
    fn has_enough_bars(&self, required: usize) -> (r: bool)
        ensures
            r == (self.spec_rows().len() >= required),
    ;
}

impl DataWindow for [Row] {
    open spec fn spec_rows(&self) -> Seq<Row> {
        self@
    }

    fn filter_by_time_window(&self, reference_timestamp: i64, window_nanos: i64) -> (r: Vec<&Row>) {
        let cutoff: i128 = reference_timestamp as i128 - window_nanos as i128;
        let mut out: Vec<&Row> = Vec::new();
        let n: usize = self.len();
        let mut i: usize = 0;
        proof {
            assert(self@.take(0) =~= Seq::<Row>::empty());
            assert(rows_of(out@) =~= Seq::<Row>::empty());
        }
        while i < n
            invariant
                n == self@.len(),
                i <= n,
                cutoff == reference_timestamp - window_nanos,
                rows_of(out@) == rows_within(
                    self@.take(i as int),
                    reference_timestamp,
                    window_nanos,
                ),
            decreases n - i,
        {
            let ghost before = out@;
            proof {
                assert(self@.take(i + 1).drop_last() =~= self@.take(i as int));
                assert(self@.take(i + 1).last() == self@[i as int]);
            }
            let row: &Row = &self[i];
            if row.timestamp as i128 >= cutoff && row.timestamp <= reference_timestamp {
                out.push(row);
                assert(rows_of(out@) =~= rows_of(before).push(*row));
            }
            i = i + 1;
        }
        assert(self@.take(n as int) =~= self@);
        out
    }

    fn last_n_bars(&self, n: usize) -> (r: &[Row]) {
        let len: usize = self.len();
        let start: usize = if len > n {
            len - n
        } else {
            0
        };
        let r = vstd::slice::slice_subrange(self, start, len);
        assert(r@ =~= (if self@.len() > n {
            self@.subrange(self@.len() - n, self@.len() as int)
        } else {
            self@
        }));
        r
    }

    fn has_enough_bars(&self, required: usize) -> (r: bool) {
        self.len() >= required
    }
}

/// The absolute value of `d`, saturating at `i64::MAX`.
pub fn abs_saturating(d: i64) -> (r: i64)
    ensures
        r == (if d >= 0 {
            d
        } else {
            clamp_i64(-d)
        }),
{
    if d >= 0 {
        d
    } else {
        saturate(-(d as i128))
    }
}

} // verus!
