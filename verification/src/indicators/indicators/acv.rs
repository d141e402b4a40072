//! The current volume relative to the average daily volume.

use super::spec_feed;
use crate::fixed::{clamp_i64, fx_add, fx_div, fx_mul, rem_floor, saturate, spec_fx_div, spec_fx_mul};
use crate::indicators::fields::CommonField;
use crate::indicators::time::TimeOfDay;
use crate::indicators::trackers::{mean, total, Entry, SumTracker};
use crate::indicators::window::Window;
use crate::types::ohlcv::Row;
use crate::utils::time::{NANOS_PER_DAY, NANOS_PER_MINUTE};
use vstd::prelude::*;

verus! {

/// The minute of the UTC day that holds `timestamp`.
pub open spec fn minute_of_day(timestamp: i64) -> int {
    ((timestamp as int) % (NANOS_PER_DAY as int)) / (NANOS_PER_MINUTE as int)
}

/// Minutes from `market_open` to `timestamp` on the day of `timestamp`;
/// negative before the open. Seconds are not counted.
pub open spec fn spec_interval(timestamp: i64, market_open: TimeOfDay) -> i64 {
    clamp_i64(minute_of_day(timestamp) - (market_open.hour * 60 + market_open.minute))
}

/// The current volume over the part of the average daily volume that is
/// expected by now. `None` unless the average daily volume and the expected
/// fraction are positive and their product is not zero.
pub open spec fn spec_acv(
    current_volume: i64,
    adv: Option<i64>,
    has_timestamp: bool,
    distribution: i64,
) -> Option<i64> {
    match adv {
        None => None,
        Some(a) => if a <= 0 || !has_timestamp || distribution <= 0 || spec_fx_mul(a, distribution)
            == 0 {
            None
        } else {
            Some(spec_fx_div(current_volume, spec_fx_mul(a, distribution)))
        },
    }
}

/// Minutes since the market opened (can be negative before the open).
pub fn timestamp_to_interval(timestamp: i64, market_open: TimeOfDay) -> (r: i64)
    ensures
        r == spec_interval(timestamp, market_open),
{
    let in_day: i64 = rem_floor(timestamp, NANOS_PER_DAY);
    let current_minutes: i64 = in_day / NANOS_PER_MINUTE;
    let open_minutes: i128 = market_open.hour as i128 * 60 + market_open.minute as i128;
    saturate(current_minutes as i128 - open_minutes)
}

/// Average Current Volume: how the volume of the current day compares to the
/// volume expected by this time of day, which is the average daily volume
/// times the fraction of a day's volume that has usually traded by now.
///
/// The expected fraction is a model of the caller's; it is handed to `get`.
pub struct ACV {
    /// The volume of each bar of the current day.
    current_day_tracker: SumTracker,
    /// The total of each recorded day.
    daily_avg_tracker: SumTracker,
    /// The timestamp of the last bar.
    last_day_timestamp: Option<i64>,
    /// Premarket volume to include.
    premarket_volume: i64,
}

impl ACV {
    /// The recorded daily totals.
    pub closed spec fn spec_days(&self) -> Seq<Entry> {
        self.daily_avg_tracker@
    }

    /// The volumes of the bars of the current day.
    pub closed spec fn spec_current_day(&self) -> Seq<Entry> {
        self.current_day_tracker@
    }

    /// The timestamp of the last bar, if any.
    pub closed spec fn spec_last_timestamp(&self) -> Option<i64> {
        self.last_day_timestamp
    }

    pub closed spec fn spec_premarket_volume(&self) -> i64 {
        self.premarket_volume
    }

    /// The number of days that the average looks back.
    pub closed spec fn spec_day_count(&self) -> usize {
        match self.daily_avg_tracker.spec_window() {
            Window::Bars(n) => n,
            _ => 0,
        }
    }

    /// The volume of the current day so far, premarket included.
    pub open spec fn spec_current_volume(&self) -> i64 {
        clamp_i64(self.spec_premarket_volume() + clamp_i64(total(self.spec_current_day())))
    }

    pub closed spec fn wf(&self) -> bool {
        &&& self.daily_avg_tracker.wf()
        &&& self.current_day_tracker.wf()
        &&& self.daily_avg_tracker.spec_window() is Bars
        &&& self.current_day_tracker.spec_window() == Window::Days(1)
    }

    /// An ACV normalized by the average over `days` days.
    pub fn new(days: usize) -> (r: Self)
        ensures
            r.wf(),
            r.spec_days() == Seq::<Entry>::empty(),
            r.spec_current_day() == Seq::<Entry>::empty(),
            r.spec_last_timestamp().is_none(),
            r.spec_premarket_volume() == 0,
            r.spec_day_count() == days,
    {
        Self::with_premarket_volume(days, 0)
    }

    /// An ACV with explicit premarket volume.
    pub fn with_premarket_volume(days: usize, premarket_vol: i64) -> (r: Self)
        ensures
            r.wf(),
            r.spec_days() == Seq::<Entry>::empty(),
            r.spec_current_day() == Seq::<Entry>::empty(),
            r.spec_last_timestamp().is_none(),
            r.spec_premarket_volume() == premarket_vol,
            r.spec_day_count() == days,
    {
        ACV {
            current_day_tracker: SumTracker::new(Window::Days(1)),
            daily_avg_tracker: SumTracker::new(Window::Bars(days)),
            last_day_timestamp: None,
            premarket_volume: premarket_vol,
        }
    }

    /// Set the premarket volume for the current day.
    pub fn set_premarket_volume(&mut self, volume: i64)
        ensures
            final(self).wf() == old(self).wf(),
            final(self).spec_premarket_volume() == volume,
            final(self).spec_days() == old(self).spec_days(),
            final(self).spec_current_day() == old(self).spec_current_day(),
            final(self).spec_last_timestamp() == old(self).spec_last_timestamp(),
            final(self).spec_day_count() == old(self).spec_day_count(),
    {
        self.premarket_volume = volume;
    }

    /// Records the total of the current day, premarket included, and starts a
    /// new day without premarket volume. Nothing happens before the first
    /// bar.
    pub fn on_market_close(&mut self)
        requires
            old(self).wf(),
        ensures
            final(self).wf(),
            final(self).spec_day_count() == old(self).spec_day_count(),
            final(self).spec_last_timestamp() == old(self).spec_last_timestamp(),
            match old(self).spec_last_timestamp() {
                Some(timestamp) => {
                    &&& final(self).spec_days() == spec_feed(
                        old(self).spec_days(),
                        Window::Bars(old(self).spec_day_count()),
                        (timestamp, old(self).spec_current_volume()),
                    )
                    &&& final(self).spec_current_day() == Seq::<Entry>::empty()
                    &&& final(self).spec_premarket_volume() == 0
                },
                None => {
                    &&& final(self).spec_days() == old(self).spec_days()
                    &&& final(self).spec_current_day() == old(self).spec_current_day()
                    &&& final(self).spec_premarket_volume() == old(self).spec_premarket_volume()
                },
            },
    {
        if let Some(timestamp) = self.last_day_timestamp {
            let daily_volume: i64 = self.current_volume();
            self.daily_avg_tracker.push(timestamp, daily_volume);
            self.daily_avg_tracker.prune(timestamp);
            self.current_day_tracker.clear();
            self.premarket_volume = 0;
        }
    }

    /// The volume of the current day so far (including premarket).
    pub fn current_volume(&self) -> (r: i64)
        requires
            self.wf(),
        ensures
            r == self.spec_current_volume(),
    {
        fx_add(self.premarket_volume, saturate(self.current_day_tracker.sum()))
    }

    /// The Average Daily Volume.
    pub fn adv(&self) -> (r: Option<i64>)
        requires
            self.wf(),
        ensures
            r == mean(self.spec_days()),
    {
        self.daily_avg_tracker.get()
    }

    /// Minutes from the market open to the last bar; `None` before the first
    /// bar.
    pub fn interval(&self, market_open: TimeOfDay) -> (r: Option<i64>)
        ensures
            r == (match self.spec_last_timestamp() {
                Some(timestamp) => Some(spec_interval(timestamp, market_open)),
                None => None,
            }),
    {
        match self.last_day_timestamp {
            Some(timestamp) => Some(timestamp_to_interval(timestamp, market_open)),
            None => None,
        }
    }

    /// Feeds the volume of `row` into the current day.
    pub fn update(&mut self, row: &Row)
        requires
            old(self).wf(),
        ensures
            final(self).wf(),
            final(self).spec_day_count() == old(self).spec_day_count(),
            final(self).spec_days() == old(self).spec_days(),
            final(self).spec_premarket_volume() == old(self).spec_premarket_volume(),
            final(self).spec_current_day() == spec_feed(
                old(self).spec_current_day(),
                Window::Days(1),
                (row.timestamp, CommonField::Volume.spec_extract(*row)),
            ),
            final(self).spec_last_timestamp() == Some(row.timestamp),
    {
        let volume: i64 = CommonField::Volume.extract(row);
        self.current_day_tracker.push(row.timestamp, volume);
        self.current_day_tracker.prune(row.timestamp);
        self.last_day_timestamp = Some(row.timestamp);
    }

    /// The current volume over `ADV * distribution`, where `distribution` is
    /// the fraction of a day's volume expected by the time of the last bar.
    pub fn get(&self, distribution: i64) -> (r: Option<i64>)
        requires
            self.wf(),
        ensures
            r == spec_acv(
                self.spec_current_volume(),
                mean(self.spec_days()),
                self.spec_last_timestamp().is_some(),
                distribution,
            ),
    {
        let adv: i64 = match self.daily_avg_tracker.get() {
            Some(a) => a,
            None => {
                return None;
            },
        };
        if adv <= 0 {
            return None;
        }
        if self.last_day_timestamp.is_none() {
            return None;
        }
        let current_vol: i64 = self.current_volume();
        if distribution <= 0 {
            return None;
        }
        fx_div(current_vol, fx_mul(adv, distribution))
    }

    pub fn reset(&mut self)
        requires
            old(self).wf(),
        ensures
            final(self).wf(),
            final(self).spec_day_count() == old(self).spec_day_count(),
            final(self).spec_days() == Seq::<Entry>::empty(),
            final(self).spec_current_day() == Seq::<Entry>::empty(),
            final(self).spec_last_timestamp().is_none(),
            final(self).spec_premarket_volume() == 0,
    {
        self.current_day_tracker.clear();
        self.daily_avg_tracker.clear();
        self.last_day_timestamp = None;
        self.premarket_volume = 0;
    }

    pub fn name(&self) -> (r: &'static str)
        ensures
            r@ == "ACV"@,
    {
        "ACV"
    }
}

} // verus!
