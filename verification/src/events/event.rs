//! Events: conditions over indicator values that are checked on each bar.

use crate::indicators::fields::CommonField;
use crate::indicators::indicator::Indicator;
use crate::types::ohlcv::Row;
use vstd::prelude::*;

verus! {

/// Every indicator of the arena is well-formed.
pub open spec fn indicators_wf(indicators: Seq<Indicator>) -> bool {
    forall|i: int| 0 <= i < indicators.len() ==> (#[trigger] indicators[i]).wf()
}

/// The value of the indicator at `index`; `None` if there is no such
/// indicator or it is not ready.
pub open spec fn spec_indicator_value(indicators: Seq<Indicator>, index: usize) -> Option<i64> {
    if index < indicators.len() {
        indicators[index as int].spec_value()
    } else {
        None
    }
}

/// The value of the indicator at `index` of the arena.
pub fn indicator_value(indicators: &[Indicator], index: usize) -> (r: Option<i64>)
    requires
        indicators_wf(indicators@),
    ensures
        r == spec_indicator_value(indicators@, index),
{
    if index < indicators.len() {
        indicators[index].get()
    } else {
        None
    }
}

/// An event tracks a condition over the indicators of a ticker and reports
/// on each bar whether the condition was triggered.
pub trait Event: Sized {
    /// Whether the event triggers on a bar, given its state before the bar.
    spec fn spec_triggered(&self, indicators: Seq<Indicator>, row: Row) -> bool;

    /// The event after it has taken a bar.
    spec fn spec_after(&self, indicators: Seq<Indicator>, row: Row) -> Self;

    /// The event without history.
    spec fn spec_reset(&self) -> Self;

    /// Takes the bar with the current indicators and reports whether the
    /// event was triggered.
    fn update(&mut self, indicators: &[Indicator], row: &Row) -> (r: bool)
        requires
            indicators_wf(indicators@),
        ensures
            r == old(self).spec_triggered(indicators@, *row),
            *final(self) == old(self).spec_after(indicators@, *row),
    ;

    /// Same as `update`.
    fn check(&mut self, indicators: &[Indicator], row: &Row) -> (r: bool)
        requires
            indicators_wf(indicators@),
        ensures
            r == old(self).spec_triggered(indicators@, *row),
            *final(self) == old(self).spec_after(indicators@, *row),
    ;

    /// Clears the history of the event.
    fn reset(&mut self)
        ensures
            *final(self) == old(self).spec_reset(),
    ;

    /// A human-readable name for the event.
    fn name(&self) -> &str;
}

/// A value to compare an indicator with.
#[derive(Debug, Clone, Copy, PartialEq, Eq, Structural)]
pub enum Threshold {
    /// A fixed numeric value.
    Fixed(i64),
    /// Another indicator, by its index in the arena.
    Indicator(usize),
    /// A field of the current bar.
    Field(CommonField),
}

impl Threshold {
    /// The current value of the threshold; `None` for an indicator that is
    /// missing or not ready.
    pub open spec fn spec_value(&self, indicators: Seq<Indicator>, row: Row) -> Option<i64> {
        match *self {
            Threshold::Fixed(value) => Some(value),
            Threshold::Indicator(idx) => spec_indicator_value(indicators, idx),
            Threshold::Field(field) => Some(field.spec_extract(row)),
        }
    }

    /// Get the current threshold value.
    pub fn get_value(&self, indicators: &[Indicator], row: &Row) -> (r: Option<i64>)
        requires
            indicators_wf(indicators@),
        ensures
            r == self.spec_value(indicators@, *row),
    {
        match self {
            Threshold::Fixed(value) => Some(*value),
            Threshold::Indicator(idx) => indicator_value(indicators, *idx),
            Threshold::Field(field) => Some(field.extract(row)),
        }
    }
}

} // verus!
