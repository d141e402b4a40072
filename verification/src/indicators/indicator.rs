//! The closed set of streaming indicators.

use crate::indicators::indicators::rsi::spec_rsi;
use crate::indicators::indicators::vwap::spec_vwap;
use crate::indicators::indicators::{
    lemma_feed_latest, spec_feed, HighOfPeriod, LowOfPeriod, Momentum, MovingAverage, ADV, RSI,
    VWAP,
};
use crate::indicators::fields::CommonField;
use crate::indicators::trackers::extremum::extremum;
use crate::indicators::trackers::{mean, Entry, HistoryTracker};
use crate::indicators::window::Window;
use crate::types::ohlcv::Row;
use vstd::prelude::*;

verus! {

/// A streaming indicator: `update` takes a bar, `get` gives the current
/// value or `None` while the indicator is not ready, `reset` clears it.
pub enum Indicator {
    MovingAverage(MovingAverage),
    RSI(RSI),
    HighOfPeriod(HighOfPeriod),
    LowOfPeriod(LowOfPeriod),
    VWAP(VWAP),
    ADV(ADV),
    Momentum(Momentum),
}

impl Indicator {
    pub open spec fn wf(&self) -> bool {
        match self {
            Indicator::MovingAverage(x) => x.wf(),
            Indicator::RSI(x) => x.wf(),
            Indicator::HighOfPeriod(x) => x.wf(),
            Indicator::LowOfPeriod(x) => x.wf(),
            Indicator::VWAP(x) => x.wf(),
            Indicator::ADV(x) => x.wf(),
            Indicator::Momentum(x) => x.wf(),
        }
    }

    /// Whether a bar stamped `timestamp` may be fed. Only the extremum
    /// indicators over a duration are particular: they take their bars in
    /// timestamp order.
    pub open spec fn spec_accepts(&self, timestamp: i64) -> bool {
        match self {
            Indicator::HighOfPeriod(x) => x.spec_accepts(timestamp),
            Indicator::LowOfPeriod(x) => x.spec_accepts(timestamp),
            _ => true,
        }
    }

    /// The current value.
    pub open spec fn spec_value(&self) -> Option<i64> {
        match self {
            Indicator::MovingAverage(x) => mean(x@),
            Indicator::RSI(x) => spec_rsi(x@),
            Indicator::HighOfPeriod(x) => extremum(x@, true),
            Indicator::LowOfPeriod(x) => extremum(x@, false),
            Indicator::VWAP(x) => spec_vwap(x.spec_price_volume(), x.spec_volume()),
            Indicator::ADV(x) => mean(x.spec_days()),
            Indicator::Momentum(x) => HistoryTracker::spec_latest(x@),
        }
    }

    /// `other` is an indicator of the same kind and configuration that holds
    /// no data.
    pub open spec fn spec_cleared(&self, other: &Indicator) -> bool {
        match (self, other) {
            (Indicator::MovingAverage(a), Indicator::MovingAverage(b)) => {
                &&& b.spec_window() == a.spec_window()
                &&& b.spec_field() == a.spec_field()
                &&& b@ == Seq::<Entry>::empty()
            },
            (Indicator::RSI(a), Indicator::RSI(b)) => {
                &&& b.spec_window() == a.spec_window()
                &&& b.spec_field() == a.spec_field()
                &&& b.spec_prev().is_none()
                &&& b@ == Seq::<Entry>::empty()
            },
            (Indicator::HighOfPeriod(a), Indicator::HighOfPeriod(b)) => {
                &&& b.spec_window() == a.spec_window()
                &&& b.spec_field() == a.spec_field()
                &&& b@ == Seq::<Entry>::empty()
            },
            (Indicator::LowOfPeriod(a), Indicator::LowOfPeriod(b)) => {
                &&& b.spec_window() == a.spec_window()
                &&& b.spec_field() == a.spec_field()
                &&& b@ == Seq::<Entry>::empty()
            },
            (Indicator::VWAP(a), Indicator::VWAP(b)) => {
                &&& b.spec_window() == a.spec_window()
                &&& b.spec_field() == a.spec_field()
                &&& b.spec_price_volume() == Seq::<Entry>::empty()
                &&& b.spec_volume() == Seq::<Entry>::empty()
            },
            (Indicator::ADV(a), Indicator::ADV(b)) => {
                &&& b.spec_day_count() == a.spec_day_count()
                &&& b.spec_days() == Seq::<Entry>::empty()
                &&& b.spec_current_day() == Seq::<Entry>::empty()
                &&& b.spec_last_timestamp().is_none()
            },
            (Indicator::Momentum(a), Indicator::Momentum(b)) => {
                &&& b.spec_window() == a.spec_window()
                &&& b.spec_field() == a.spec_field()
                &&& b.spec_prev().is_none()
                &&& b@ == Seq::<Entry>::empty()
            },
            _ => false,
        }
    }

    /// The name of the kind of indicator.
    pub open spec fn spec_name(&self) -> Seq<char> {
        match self {
            Indicator::MovingAverage(_) => "Moving Average"@,
            Indicator::RSI(_) => "RSI"@,
            Indicator::HighOfPeriod(_) => "High of Period"@,
            Indicator::LowOfPeriod(_) => "Low of Period"@,
            Indicator::VWAP(_) => "VWAP"@,
            Indicator::ADV(_) => "ADV"@,
            Indicator::Momentum(_) => "Momentum"@,
        }
    }

    /// `next` is this indicator after it has taken `row`.
    pub open spec fn spec_fed(&self, next: &Indicator, row: Row) -> bool {
        match (self, next) {
            (Indicator::MovingAverage(a), Indicator::MovingAverage(b)) => {
                &&& b.spec_window() == a.spec_window()
                &&& b.spec_field() == a.spec_field()
                &&& b@ == spec_feed(
                    a@,
                    a.spec_window(),
                    (row.timestamp, a.spec_field().spec_extract(row)),
                )
            },
            (Indicator::RSI(a), Indicator::RSI(b)) => {
                &&& b.spec_window() == a.spec_window()
                &&& b.spec_field() == a.spec_field()
                &&& b.spec_prev() == Some(a.spec_field().spec_extract(row))
                &&& b@ == a.spec_after_update(row.timestamp, a.spec_field().spec_extract(row))
            },
            (Indicator::HighOfPeriod(a), Indicator::HighOfPeriod(b)) => {
                &&& b.spec_window() == a.spec_window()
                &&& b.spec_field() == a.spec_field()
                &&& b@ == spec_feed(
                    a@,
                    a.spec_window(),
                    (row.timestamp, a.spec_field().spec_extract(row)),
                )
            },
            (Indicator::LowOfPeriod(a), Indicator::LowOfPeriod(b)) => {
                &&& b.spec_window() == a.spec_window()
                &&& b.spec_field() == a.spec_field()
                &&& b@ == spec_feed(
                    a@,
                    a.spec_window(),
                    (row.timestamp, a.spec_field().spec_extract(row)),
                )
            },
            (Indicator::VWAP(a), Indicator::VWAP(b)) => {
                &&& b.spec_window() == a.spec_window()
                &&& b.spec_field() == a.spec_field()
                &&& b.spec_price_volume() == spec_feed(
                    a.spec_price_volume(),
                    a.spec_window(),
                    (
                        row.timestamp,
                        crate::fixed::clamp_i64(a.spec_field().spec_extract(row) * row.volume),
                    ),
                )
                &&& b.spec_volume() == spec_feed(
                    a.spec_volume(),
                    a.spec_window(),
                    (row.timestamp, row.volume),
                )
            },
            (Indicator::ADV(a), Indicator::ADV(b)) => {
                &&& b.spec_day_count() == a.spec_day_count()
                &&& b.spec_days() == a.spec_days()
                &&& b.spec_last_timestamp() == Some(row.timestamp)
                &&& b.spec_current_day() == spec_feed(
                    a.spec_current_day(),
                    Window::Days(1),
                    (row.timestamp, CommonField::Volume.spec_extract(row)),
                )
            },
            (Indicator::Momentum(a), Indicator::Momentum(b)) => {
                &&& b.spec_window() == a.spec_window()
                &&& b.spec_field() == a.spec_field()
                &&& b.spec_prev() == Some(a.spec_field().spec_extract(row))
                &&& b@ == a.spec_after_update(row.timestamp, a.spec_field().spec_extract(row))
            },
            _ => false,
        }
    }

    /// Whether every bar stamped `timestamp` or later may be fed.
    pub open spec fn spec_accepts_from(&self, timestamp: i64) -> bool {
        forall|t: i64| t >= timestamp ==> #[trigger] self.spec_accepts(t)
    }

    /// A new indicator of the same kind and configuration, without data.
    pub fn fresh(&self) -> (r: Self)
        requires
            self.wf(),
        ensures
            r.wf(),
            self.spec_cleared(&r),
            r.spec_value().is_none(),
            forall|t: i64| r.spec_accepts(t),
    {
        match self {
            Indicator::MovingAverage(x) => Indicator::MovingAverage(x.fresh()),
            Indicator::RSI(x) => Indicator::RSI(x.fresh()),
            Indicator::HighOfPeriod(x) => Indicator::HighOfPeriod(x.fresh()),
            Indicator::LowOfPeriod(x) => Indicator::LowOfPeriod(x.fresh()),
            Indicator::VWAP(x) => Indicator::VWAP(x.fresh()),
            Indicator::ADV(x) => Indicator::ADV(x.fresh()),
            Indicator::Momentum(x) => Indicator::Momentum(x.fresh()),
        }
    }

    /// Whether a bar stamped `timestamp` may be fed.
    pub fn accepts(&self, timestamp: i64) -> (r: bool)
        requires
            self.wf(),
        ensures
            r == self.spec_accepts(timestamp),
    {
        match self {
            Indicator::HighOfPeriod(x) => x.accepts(timestamp),
            Indicator::LowOfPeriod(x) => x.accepts(timestamp),
            _ => true,
        }
    }

    /// Update the indicator with a new bar. Afterwards the indicator accepts
    /// every bar that is not stamped earlier than this one.
    pub fn update(&mut self, row: &Row)
        requires
            old(self).wf(),
            old(self).spec_accepts(row.timestamp),
        ensures
            final(self).wf(),
            old(self).spec_fed(final(self), *row),
            final(self).spec_accepts_from(row.timestamp),
    {
        match self {
            Indicator::MovingAverage(x) => {
                x.update(row);
            },
            Indicator::RSI(x) => {
                x.update(row);
            },
            Indicator::HighOfPeriod(x) => {
                proof {
                    lemma_feed_latest(
                        x@,
                        x.spec_window(),
                        (row.timestamp, x.spec_field().spec_extract(*row)),
                    );
                }
                x.update(row);
            },
            Indicator::LowOfPeriod(x) => {
                proof {
                    lemma_feed_latest(
                        x@,
                        x.spec_window(),
                        (row.timestamp, x.spec_field().spec_extract(*row)),
                    );
                }
                x.update(row);
            },
            Indicator::VWAP(x) => {
                x.update(row);
            },
            Indicator::ADV(x) => {
                x.update(row);
            },
            Indicator::Momentum(x) => {
                x.update(row);
            },
        }
    }

    /// Get the current indicator value; `None` while the indicator does not
    /// have enough data.
    pub fn get(&self) -> (r: Option<i64>)
        requires
            self.wf(),
        ensures
            r == self.spec_value(),
    {
        match self {
            Indicator::MovingAverage(x) => x.get(),
            Indicator::RSI(x) => x.get(),
            Indicator::HighOfPeriod(x) => x.get(),
            Indicator::LowOfPeriod(x) => x.get(),
            Indicator::VWAP(x) => x.get(),
            Indicator::ADV(x) => x.get(),
            Indicator::Momentum(x) => x.get(),
        }
    }

    /// Reset the indicator state (clear all history).
    pub fn reset(&mut self)
        requires
            old(self).wf(),
        ensures
            final(self).wf(),
            old(self).spec_cleared(final(self)),
            final(self).spec_value().is_none(),
            forall|t: i64| final(self).spec_accepts(t),
    {
        match self {
            Indicator::MovingAverage(x) => {
                x.reset();
            },
            Indicator::RSI(x) => {
                x.reset();
            },
            Indicator::HighOfPeriod(x) => {
                x.reset();
            },
            Indicator::LowOfPeriod(x) => {
                x.reset();
            },
            Indicator::VWAP(x) => {
                x.reset();
            },
            Indicator::ADV(x) => {
                x.reset();
            },
            Indicator::Momentum(x) => {
                x.reset();
            },
        }
    }

    /// A human-readable name for this indicator.
    pub fn name(&self) -> (r: &'static str)
        ensures
            r@ == self.spec_name(),
    {
        match self {
            Indicator::MovingAverage(x) => x.name(),
            Indicator::RSI(x) => x.name(),
            Indicator::HighOfPeriod(x) => x.name(),
            Indicator::LowOfPeriod(x) => x.name(),
            Indicator::VWAP(x) => x.name(),
            Indicator::ADV(x) => x.name(),
            Indicator::Momentum(x) => x.name(),
        }
    }
}

} // verus!
