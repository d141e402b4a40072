//! The event of an indicator crossing a threshold.

use super::event::{indicator_value, spec_indicator_value, Event, Threshold};
use crate::indicators::indicator::Indicator;
use crate::types::ohlcv::Row;
use vstd::prelude::*;

verus! {

/// Direction of the cross event.
#[derive(Debug, Clone, Copy, PartialEq, Eq, Structural)]
pub enum CrossDirection {
    /// Crosses from at-or-below to above.
    Above,
    /// Crosses from at-or-above to below.
    Below,
}

/// Whether the move from the previous to the current values is a cross in
/// `direction`: the indicator was at or on the other side of the threshold
/// and is now strictly beyond it. Without all four values there is no cross.
pub open spec fn spec_crossed(
    direction: CrossDirection,
    prev_indicator: Option<i64>,
    prev_threshold: Option<i64>,
    indicator: Option<i64>,
    threshold: Option<i64>,
) -> bool {
    match (prev_indicator, prev_threshold, indicator, threshold) {
        (Some(pi), Some(pt), Some(ci), Some(ct)) => match direction {
            CrossDirection::Above => pi <= pt && ci > ct,
            CrossDirection::Below => pi >= pt && ci < ct,
        },
        _ => false,
    }
}

/// Event that triggers when an indicator crosses a threshold: a fixed value,
/// another indicator, or a field of the current bar.
#[derive(Debug, Clone, Copy, PartialEq, Eq, Structural)]
pub struct Cross {
    /// Index of the indicator being monitored.
    pub indicator_idx: usize,
    /// The threshold to cross.
    pub threshold: Threshold,
    /// Direction of the cross to detect.
    pub direction: CrossDirection,
    /// Indicator value at the previous bar.
    pub prev_indicator: Option<i64>,
    /// Threshold value at the previous bar.
    pub prev_threshold: Option<i64>,
}

impl Cross {
    /// Create a new Cross event without history.
    pub fn new(indicator_idx: usize, threshold: Threshold, direction: CrossDirection) -> (r: Self)
        ensures
            r == (Cross {
                indicator_idx,
                threshold,
                direction,
                prev_indicator: None,
                prev_threshold: None,
            }),
    {
        Cross { indicator_idx, threshold, direction, prev_indicator: None, prev_threshold: None }
    }

    /// Convenience constructor for crossing above.
    pub fn above(indicator_idx: usize, threshold: Threshold) -> (r: Self)
        ensures
            r == (Cross {
                indicator_idx,
                threshold,
                direction: CrossDirection::Above,
                prev_indicator: None,
                prev_threshold: None,
            }),
    {
        Self::new(indicator_idx, threshold, CrossDirection::Above)
    }

    /// Convenience constructor for crossing below.
    pub fn below(indicator_idx: usize, threshold: Threshold) -> (r: Self)
        ensures
            r == (Cross {
                indicator_idx,
                threshold,
                direction: CrossDirection::Below,
                prev_indicator: None,
                prev_threshold: None,
            }),
    {
        Self::new(indicator_idx, threshold, CrossDirection::Below)
    }

    /// Whether the current values are a cross from the previous values.
    pub fn crossed(&self, current_indicator: i64, current_threshold: i64) -> (r: bool)
        ensures
            r == spec_crossed(
                self.direction,
                self.prev_indicator,
                self.prev_threshold,
                Some(current_indicator),
                Some(current_threshold),
            ),
    {
        match (self.prev_indicator, self.prev_threshold) {
            (Some(prev_ind), Some(prev_thresh)) => match self.direction {
                CrossDirection::Above => prev_ind <= prev_thresh && current_indicator
                    > current_threshold,
                CrossDirection::Below => prev_ind >= prev_thresh && current_indicator
                    < current_threshold,
            },
            _ => false,
        }
    }
}

impl Event for Cross {
    /// The event triggers when the indicator was at or on the other side of
    /// the threshold at the previous bar and is strictly beyond it now.
    open spec fn spec_triggered(&self, indicators: Seq<Indicator>, row: Row) -> bool {
        spec_crossed(
            self.direction,
            self.prev_indicator,
            self.prev_threshold,
            spec_indicator_value(indicators, self.indicator_idx),
            self.threshold.spec_value(indicators, row),
        )
    }

    /// The current values become the previous ones.
    open spec fn spec_after(&self, indicators: Seq<Indicator>, row: Row) -> Cross {
        Cross {
            prev_indicator: spec_indicator_value(indicators, self.indicator_idx),
            prev_threshold: self.threshold.spec_value(indicators, row),
            ..*self
        }
    }

    open spec fn spec_reset(&self) -> Cross {
        Cross { prev_indicator: None, prev_threshold: None, ..*self }
    }

    fn update(&mut self, indicators: &[Indicator], row: &Row) -> (r: bool) {
        let current_indicator: Option<i64> = indicator_value(indicators, self.indicator_idx);
        let current_threshold: Option<i64> = self.threshold.get_value(indicators, row);
        let triggered: bool = match (current_indicator, current_threshold) {
            (Some(ci), Some(ct)) => self.crossed(ci, ct),
            _ => false,
        };
        self.prev_indicator = current_indicator;
        self.prev_threshold = current_threshold;
        triggered
    }

    fn check(&mut self, indicators: &[Indicator], row: &Row) -> (r: bool) {
        self.update(indicators, row)
    }

    fn reset(&mut self) {
        self.prev_indicator = None;
        self.prev_threshold = None;
    }

    fn name(&self) -> (r: &str)
        ensures
            r@ == (match self.direction {
                CrossDirection::Above => "Cross Above"@,
                CrossDirection::Below => "Cross Below"@,
            }),
    {
        match self.direction {
            CrossDirection::Above => "Cross Above",
            CrossDirection::Below => "Cross Below",
        }
    }
}

} // verus!
