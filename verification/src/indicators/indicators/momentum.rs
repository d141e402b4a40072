//! The latest percentage change of a field.

use crate::indicators::fields::CommonField;
use crate::indicators::trackers::change::spec_change;
use crate::indicators::trackers::{spec_prune, spec_push, ChangeTracker, Entry, HistoryTracker};
use crate::indicators::window::Window;
use crate::types::ohlcv::Row;
use vstd::prelude::*;

verus! {

/// Momentum: the percentage change from the value before to the latest
/// value.
pub struct Momentum {
    field: CommonField,
    tracker: ChangeTracker,
}

impl View for Momentum {
    type V = Seq<Entry>;

    /// The percentage changes that the window retains.
    closed spec fn view(&self) -> Seq<Entry> {
        self.tracker@
    }
}

impl Momentum {
    pub closed spec fn spec_window(&self) -> Window {
        self.tracker.spec_window()
    }

    pub closed spec fn spec_field(&self) -> CommonField {
        self.field
    }

    /// The value that was fed last, if any.
    pub closed spec fn spec_prev(&self) -> Option<i64> {
        self.tracker.spec_prev()
    }

    /// Changes are percentages.
    pub closed spec fn wf(&self) -> bool {
        self.tracker.spec_use_percentage()
    }

    /// The retained changes after `value` is fed at `timestamp`.
    pub open spec fn spec_after_update(&self, timestamp: i64, value: i64) -> Seq<Entry> {
        match self.spec_prev() {
            Some(prev) => spec_prune(
                spec_push(self@, self.spec_window(), (timestamp, spec_change(true, prev, value))),
                self.spec_window(),
                timestamp,
            ),
            None => spec_prune(self@, self.spec_window(), timestamp),
        }
    }

    pub fn new(window: Window, field: CommonField) -> (r: Self)
        ensures
            r.wf(),
            r@ == Seq::<Entry>::empty(),
            r.spec_prev().is_none(),
            r.spec_window() == window,
            r.spec_field() == field,
    {
        Momentum { field, tracker: ChangeTracker::new(window, true) }
    }

    /// A new indicator of the same field over the same window.
    pub fn fresh(&self) -> (r: Self)
        ensures
            r.wf(),
            r@ == Seq::<Entry>::empty(),
            r.spec_prev().is_none(),
            r.spec_window() == self.spec_window(),
            r.spec_field() == self.spec_field(),
    {
        Self::new(self.tracker.window(), self.field)
    }

    /// Feeds the field of `row`: records its percentage change from the value
    /// fed before.
    pub fn update(&mut self, row: &Row)
        requires
            old(self).wf(),
        ensures
            final(self).wf(),
            final(self)@ == old(self).spec_after_update(
                row.timestamp,
                old(self).spec_field().spec_extract(*row),
            ),
            final(self).spec_prev() == Some(old(self).spec_field().spec_extract(*row)),
            final(self).spec_window() == old(self).spec_window(),
            final(self).spec_field() == old(self).spec_field(),
    {
        let value: i64 = self.field.extract(row);
        self.tracker.push(row.timestamp, value);
        self.tracker.prune(row.timestamp);
    }

    /// The most recent percentage change.
    pub fn get(&self) -> (r: Option<i64>)
        ensures
            r == HistoryTracker::spec_latest(self@),
    {
        self.tracker.get()
    }

    pub fn reset(&mut self)
        ensures
            final(self).wf() == old(self).wf(),
            final(self)@ == Seq::<Entry>::empty(),
            final(self).spec_prev().is_none(),
            final(self).spec_window() == old(self).spec_window(),
            final(self).spec_field() == old(self).spec_field(),
    {
        self.tracker.clear();
    }

    pub fn name(&self) -> (r: &'static str)
        ensures
            r@ == "Momentum"@,
    {
        "Momentum"
    }
}

} // verus!
