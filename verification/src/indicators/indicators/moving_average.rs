//! The moving average of a field.

use super::spec_feed;
use crate::indicators::fields::CommonField;
use crate::indicators::trackers::{mean, Entry, SumTracker};
use crate::indicators::window::Window;
use crate::types::ohlcv::Row;
use vstd::prelude::*;

verus! {

/// Moving average using stateful tracking.
pub struct MovingAverage {
    tracker: SumTracker,
    field: CommonField,
}

impl View for MovingAverage {
    type V = Seq<Entry>;

    closed spec fn view(&self) -> Seq<Entry> {
        self.tracker@
    }
}

impl MovingAverage {
    pub closed spec fn wf(&self) -> bool {
        self.tracker.wf()
    }

    pub closed spec fn spec_window(&self) -> Window {
        self.tracker.spec_window()
    }

    pub closed spec fn spec_field(&self) -> CommonField {
        self.field
    }

    pub fn new(window: Window, field: CommonField) -> (r: Self)
        ensures
            r.wf(),
            r@ == Seq::<Entry>::empty(),
            r.spec_window() == window,
            r.spec_field() == field,
    {
        MovingAverage { tracker: SumTracker::new(window), field }
    }

    /// A new moving average of the same field over the same window.
    pub fn fresh(&self) -> (r: Self)
        ensures
            r.wf(),
            r@ == Seq::<Entry>::empty(),
            r.spec_window() == self.spec_window(),
            r.spec_field() == self.spec_field(),
    {
        Self::new(self.tracker.window(), self.field)
    }

    /// Feeds the field of `row` into the window.
    pub fn update(&mut self, row: &Row)
        requires
            old(self).wf(),
        ensures
            final(self).wf(),
            final(self)@ == spec_feed(
                old(self)@,
                old(self).spec_window(),
                (row.timestamp, old(self).spec_field().spec_extract(*row)),
            ),
            final(self).spec_window() == old(self).spec_window(),
            final(self).spec_field() == old(self).spec_field(),
    {
        let value: i64 = self.field.extract(row);
        self.tracker.push(row.timestamp, value);
        self.tracker.prune(row.timestamp);
    }

    /// The average of the window; `None` while the window is empty.
    pub fn get(&self) -> (r: Option<i64>)
        requires
            self.wf(),
        ensures
            r == mean(self@),
    {
        self.tracker.get()
    }

    pub fn reset(&mut self)
        ensures
            final(self).wf(),
            final(self)@ == Seq::<Entry>::empty(),
            final(self).spec_window() == old(self).spec_window(),
            final(self).spec_field() == old(self).spec_field(),
    {
        self.tracker.clear();
    }

    pub fn name(&self) -> (r: &'static str)
        ensures
            r@ == "Moving Average"@,
    {
        "Moving Average"
    }
}

} // verus!
