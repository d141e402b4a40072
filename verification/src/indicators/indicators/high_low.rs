//! The highest and the lowest value of a field over a window.

use super::{latest_at_most, lemma_feed_latest, spec_feed};
use crate::indicators::fields::CommonField;
use crate::indicators::trackers::extremum::extremum;
use crate::indicators::trackers::{Entry, ExtremumTracker};
use crate::indicators::window::Window;
use crate::types::ohlcv::Row;
use vstd::prelude::*;

verus! {

/// The highest value of a field over a window.
pub struct HighOfPeriod {
    tracker: ExtremumTracker,
    field: CommonField,
}

impl View for HighOfPeriod {
    type V = Seq<Entry>;

    closed spec fn view(&self) -> Seq<Entry> {
        self.tracker@
    }
}

impl HighOfPeriod {
    pub closed spec fn wf(&self) -> bool {
        self.tracker.wf() && self.tracker.spec_track_max()
    }

    pub closed spec fn spec_window(&self) -> Window {
        self.tracker.spec_window()
    }

    pub closed spec fn spec_field(&self) -> CommonField {
        self.field
    }

    /// Whether a bar stamped `timestamp` may be fed: a duration window takes
    /// its bars in timestamp order.
    pub open spec fn spec_accepts(&self, timestamp: i64) -> bool {
        match self.spec_window() {
            Window::Bars(_) => true,
            _ => latest_at_most(self@, timestamp),
        }
    }

    pub fn new(window: Window, field: CommonField) -> (r: Self)
        ensures
            r.wf(),
            r@ == Seq::<Entry>::empty(),
            r.spec_window() == window,
            r.spec_field() == field,
    {
        HighOfPeriod { tracker: ExtremumTracker::new_max(window), field }
    }

    /// A new indicator of the same field over the same window.
    pub fn fresh(&self) -> (r: Self)
        ensures
            r.wf(),
            r@ == Seq::<Entry>::empty(),
            r.spec_window() == self.spec_window(),
            r.spec_field() == self.spec_field(),
    {
        Self::new(self.tracker.window(), self.field)
    }

    /// Whether a bar stamped `timestamp` may be fed.
    pub fn accepts(&self, timestamp: i64) -> (r: bool)
        requires
            self.wf(),
        ensures
            r == self.spec_accepts(timestamp),
    {
        self.tracker.accepts(timestamp)
    }

    /// Feeds the field of `row` into the window.
    pub fn update(&mut self, row: &Row)
        requires
            old(self).wf(),
            old(self).spec_accepts(row.timestamp),
        ensures
            final(self).wf(),
            final(self)@ == spec_feed(
                old(self)@,
                old(self).spec_window(),
                (row.timestamp, old(self).spec_field().spec_extract(*row)),
            ),
            final(self).spec_window() == old(self).spec_window(),
            final(self).spec_field() == old(self).spec_field(),
    {
        let value: i64 = self.field.extract(row);
        proof {
            lemma_feed_latest(self.tracker@, self.tracker.spec_window(), (row.timestamp, value));
        }
        self.tracker.push(row.timestamp, value);
        self.tracker.prune(row.timestamp);
    }

    /// The highest retained value; `None` while the window is empty.
    pub fn get(&self) -> (r: Option<i64>)
        requires
            self.wf(),
        ensures
            r == extremum(self@, true),
    {
        self.tracker.get()
    }

    pub fn reset(&mut self)
        requires
            old(self).wf(),
        ensures
            final(self).wf(),
            final(self)@ == Seq::<Entry>::empty(),
            final(self).spec_window() == old(self).spec_window(),
            final(self).spec_field() == old(self).spec_field(),
    {
        self.tracker.clear();
    }

    pub fn name(&self) -> (r: &'static str)
        ensures
            r@ == "High of Period"@,
    {
        "High of Period"
    }
}

/// The lowest value of a field over a window.
pub struct LowOfPeriod {
    tracker: ExtremumTracker,
    field: CommonField,
}

impl View for LowOfPeriod {
    type V = Seq<Entry>;

    closed spec fn view(&self) -> Seq<Entry> {
        self.tracker@
    }
}

impl LowOfPeriod {
    pub closed spec fn wf(&self) -> bool {
        self.tracker.wf() && !self.tracker.spec_track_max()
    }

    pub closed spec fn spec_window(&self) -> Window {
        self.tracker.spec_window()
    }

    pub closed spec fn spec_field(&self) -> CommonField {
        self.field
    }

    /// Whether a bar stamped `timestamp` may be fed: a duration window takes
    /// its bars in timestamp order.
    pub open spec fn spec_accepts(&self, timestamp: i64) -> bool {
        match self.spec_window() {
            Window::Bars(_) => true,
            _ => latest_at_most(self@, timestamp),
        }
    }

    pub fn new(window: Window, field: CommonField) -> (r: Self)
        ensures
            r.wf(),
            r@ == Seq::<Entry>::empty(),
            r.spec_window() == window,
            r.spec_field() == field,
    {
        LowOfPeriod { tracker: ExtremumTracker::new_min(window), field }
    }

    /// A new indicator of the same field over the same window.
    pub fn fresh(&self) -> (r: Self)
        ensures
            r.wf(),
            r@ == Seq::<Entry>::empty(),
            r.spec_window() == self.spec_window(),
            r.spec_field() == self.spec_field(),
    {
        Self::new(self.tracker.window(), self.field)
    }

    /// Whether a bar stamped `timestamp` may be fed.
    pub fn accepts(&self, timestamp: i64) -> (r: bool)
        requires
            self.wf(),
        ensures
            r == self.spec_accepts(timestamp),
    {
        self.tracker.accepts(timestamp)
    }

    /// Feeds the field of `row` into the window.
    pub fn update(&mut self, row: &Row)
        requires
            old(self).wf(),
            old(self).spec_accepts(row.timestamp),
        ensures
            final(self).wf(),
            final(self)@ == spec_feed(
                old(self)@,
                old(self).spec_window(),
                (row.timestamp, old(self).spec_field().spec_extract(*row)),
            ),
            final(self).spec_window() == old(self).spec_window(),
            final(self).spec_field() == old(self).spec_field(),
    {
        let value: i64 = self.field.extract(row);
        proof {
            lemma_feed_latest(self.tracker@, self.tracker.spec_window(), (row.timestamp, value));
        }
        self.tracker.push(row.timestamp, value);
        self.tracker.prune(row.timestamp);
    }

    /// The lowest retained value; `None` while the window is empty.
    pub fn get(&self) -> (r: Option<i64>)
        requires
            self.wf(),
        ensures
            r == extremum(self@, false),
    {
        self.tracker.get()
    }

    pub fn reset(&mut self)
        requires
            old(self).wf(),
        ensures
            final(self).wf(),
            final(self)@ == Seq::<Entry>::empty(),
            final(self).spec_window() == old(self).spec_window(),
            final(self).spec_field() == old(self).spec_field(),
    {
        self.tracker.clear();
    }

    pub fn name(&self) -> (r: &'static str)
        ensures
            r@ == "Low of Period"@,
    {
        "Low of Period"
    }
}

} // verus!
