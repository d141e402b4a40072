//! The average daily volume.

use super::spec_feed;
use crate::fixed::{clamp_i64, saturate};
use crate::indicators::fields::CommonField;
use crate::indicators::trackers::{mean, total, Entry, SumTracker};
use crate::indicators::window::Window;
use crate::types::ohlcv::Row;
use vstd::prelude::*;

verus! {

/// Average Daily Volume: the average of the daily volume totals over a number
/// of days.
///
/// `update` takes each bar of the day; `on_market_close`, called once after
/// each trading day, records the total of that day.
pub struct ADV {
    /// The total of each recorded day.
    daily_avg_tracker: SumTracker,
    /// The volume of each bar of the current day.
    current_day_tracker: SumTracker,
    /// The timestamp of the last bar.
    last_day_timestamp: Option<i64>,
}

impl ADV {
    /// The recorded daily totals.
    pub closed spec fn spec_days(&self) -> Seq<Entry> {
        self.daily_avg_tracker@
    }

    /// The volumes of the bars of the current day.
    pub closed spec fn spec_current_day(&self) -> Seq<Entry> {
        self.current_day_tracker@
    }

    /// The timestamp of the last bar, if any.
    pub closed spec fn spec_last_timestamp(&self) -> Option<i64> {
        self.last_day_timestamp
    }

    /// The number of days that the average looks back.
    pub closed spec fn spec_day_count(&self) -> usize {
        match self.daily_avg_tracker.spec_window() {
            Window::Bars(n) => n,
            _ => 0,
        }
    }

    pub closed spec fn wf(&self) -> bool {
        &&& self.daily_avg_tracker.wf()
        &&& self.current_day_tracker.wf()
        &&& self.daily_avg_tracker.spec_window() is Bars
        &&& self.current_day_tracker.spec_window() == Window::Days(1)
    }

    /// An average over `days` days.
    pub fn new(days: usize) -> (r: Self)
        ensures
            r.wf(),
            r.spec_days() == Seq::<Entry>::empty(),
            r.spec_current_day() == Seq::<Entry>::empty(),
            r.spec_last_timestamp().is_none(),
            r.spec_day_count() == days,
    {
        ADV {
            daily_avg_tracker: SumTracker::new(Window::Bars(days)),
            current_day_tracker: SumTracker::new(Window::Days(1)),
            last_day_timestamp: None,
        }
    }

    /// A new average over the same number of days.
    pub fn fresh(&self) -> (r: Self)
        requires
            self.wf(),
        ensures
            r.wf(),
            r.spec_days() == Seq::<Entry>::empty(),
            r.spec_current_day() == Seq::<Entry>::empty(),
            r.spec_last_timestamp().is_none(),
            r.spec_day_count() == self.spec_day_count(),
    {
        match self.daily_avg_tracker.window() {
            Window::Bars(days) => Self::new(days),
            _ => Self::new(0),
        }
    }

    /// Records the total of the current day and starts a new day. Nothing
    /// happens before the first bar.
    pub fn on_market_close(&mut self)
        requires
            old(self).wf(),
        ensures
            final(self).wf(),
            final(self).spec_day_count() == old(self).spec_day_count(),
            final(self).spec_last_timestamp() == old(self).spec_last_timestamp(),
            match old(self).spec_last_timestamp() {
                Some(timestamp) => {
                    &&& final(self).spec_days() == spec_feed(
                        old(self).spec_days(),
                        Window::Bars(old(self).spec_day_count()),
                        (timestamp, clamp_i64(total(old(self).spec_current_day()))),
                    )
                    &&& final(self).spec_current_day() == Seq::<Entry>::empty()
                },
                None => {
                    &&& final(self).spec_days() == old(self).spec_days()
                    &&& final(self).spec_current_day() == old(self).spec_current_day()
                },
            },
    {
        if let Some(timestamp) = self.last_day_timestamp {
            let daily_volume: i64 = saturate(self.current_day_tracker.sum());
            self.daily_avg_tracker.push(timestamp, daily_volume);
            self.daily_avg_tracker.prune(timestamp);
            self.current_day_tracker.clear();
        }
    }

    /// The volume of the current day so far.
    pub fn current_day_volume(&self) -> (r: i64)
        requires
            self.wf(),
        ensures
            r == clamp_i64(total(self.spec_current_day())),
    {
        saturate(self.current_day_tracker.sum())
    }

    /// Feeds the volume of `row` into the current day.
    pub fn update(&mut self, row: &Row)
        requires
            old(self).wf(),
        ensures
            final(self).wf(),
            final(self).spec_day_count() == old(self).spec_day_count(),
            final(self).spec_days() == old(self).spec_days(),
            final(self).spec_current_day() == spec_feed(
                old(self).spec_current_day(),
                Window::Days(1),
                (row.timestamp, CommonField::Volume.spec_extract(*row)),
            ),
            final(self).spec_last_timestamp() == Some(row.timestamp),
    {
        let volume: i64 = CommonField::Volume.extract(row);
        self.current_day_tracker.push(row.timestamp, volume);
        self.current_day_tracker.prune(row.timestamp);
        self.last_day_timestamp = Some(row.timestamp);
    }

    /// The average of the recorded daily totals; `None` before the first
    /// recorded day.
    pub fn get(&self) -> (r: Option<i64>)
        requires
            self.wf(),
        ensures
            r == mean(self.spec_days()),
    {
        self.daily_avg_tracker.get()
    }

    pub fn reset(&mut self)
        requires
            old(self).wf(),
        ensures
            final(self).wf(),
            final(self).spec_day_count() == old(self).spec_day_count(),
            final(self).spec_days() == Seq::<Entry>::empty(),
            final(self).spec_current_day() == Seq::<Entry>::empty(),
            final(self).spec_last_timestamp().is_none(),
    {
        self.daily_avg_tracker.clear();
        self.current_day_tracker.clear();
        self.last_day_timestamp = None;
    }

    pub fn name(&self) -> (r: &'static str)
        ensures
            r@ == "ADV"@,
    {
        "ADV"
    }
}

} // verus!
