//! The relative strength index.

use crate::fixed::{clamp_i64, div_floor, saturate};
use crate::indicators::fields::CommonField;
use crate::indicators::trackers::change::{
    average_or_zero, gains, lemma_gains_losses_bounds, losses,
};
use crate::indicators::trackers::{spec_prune, ChangeTracker, Entry};
use crate::indicators::window::Window;
use crate::position::sizing::HUNDRED;
use crate::types::ohlcv::Row;
use vstd::prelude::*;

verus! {

/// The index for an average gain and an average loss, neither negative:
/// `100 * gain / (gain + loss)`, which is `100 - 100 / (1 + gain / loss)`,
/// and 100 when there is no loss.
pub open spec fn rsi_value(avg_gain: i64, avg_loss: i64) -> i64 {
    if avg_loss == 0 {
        HUNDRED
    } else {
        ((HUNDRED * avg_gain) / (avg_gain + avg_loss)) as i64
    }
}

/// The index of the changes `s`; `None` while there is no change.
pub open spec fn spec_rsi(s: Seq<Entry>) -> Option<i64> {
    if s.len() == 0 {
        None
    } else {
        Some(
            rsi_value(
                average_or_zero(gains(s), s.len() as int),
                average_or_zero(losses(s), s.len() as int),
            ),
        )
    }
}

/// The index lies between 0 and 100.
pub proof fn lemma_rsi_range(avg_gain: i64, avg_loss: i64)
    requires
        avg_gain >= 0,
        avg_loss >= 0,
    ensures
        0 <= rsi_value(avg_gain, avg_loss) <= HUNDRED,
        avg_loss != 0 ==> 0 <= (HUNDRED * avg_gain) / (avg_gain + avg_loss) <= HUNDRED,
{
    if avg_loss != 0 {
        let n = HUNDRED * avg_gain;
        let d = avg_gain + avg_loss;
        assert(0 <= n / d <= HUNDRED) by (nonlinear_arith)
            requires
                d > 0,
                0 <= n,
                n <= HUNDRED * d,
                HUNDRED == 100_000_000,
        ;
    }
}

/// Without a loss in the window the index is 100.
pub proof fn lemma_rsi_without_losses(s: Seq<Entry>)
    requires
        s.len() > 0,
        losses(s) == 0,
    ensures
        spec_rsi(s) == Some(HUNDRED),
{
    assert(0int / (s.len() as int) == 0) by (nonlinear_arith)
        requires
            s.len() > 0,
    ;
}

/// A window of changes that are all positive has no loss.
pub proof fn lemma_increasing_has_no_losses(s: Seq<Entry>)
    requires
        forall|i: int| 0 <= i < s.len() ==> (#[trigger] s[i]).1 >= 0,
    ensures
        losses(s) == 0,
    decreases s.len(),
{
    if s.len() > 0 {
        let before = s.drop_last();
        assert forall|i: int| 0 <= i < before.len() implies (#[trigger] before[i]).1 >= 0 by {
            assert(before[i] == s[i]);
        }
        lemma_increasing_has_no_losses(before);
        assert(s.last() == s[s.len() - 1]);
    }
}

/// While every change in the window is a rise, the index is 100.
pub proof fn lemma_rsi_of_rising_series(s: Seq<Entry>)
    requires
        s.len() > 0,
        forall|i: int| 0 <= i < s.len() ==> (#[trigger] s[i]).1 > 0,
    ensures
        spec_rsi(s) == Some(HUNDRED),
{
    lemma_increasing_has_no_losses(s);
    lemma_rsi_without_losses(s);
}

/// Relative Strength Index: compares the magnitude of recent gains to recent
/// losses on a scale from 0 to 100.
pub struct RSI {
    tracker: ChangeTracker,
    field: CommonField,
}

impl View for RSI {
    type V = Seq<Entry>;

    /// The changes that the window retains.
    closed spec fn view(&self) -> Seq<Entry> {
        self.tracker@
    }
}

impl RSI {
    pub closed spec fn spec_window(&self) -> Window {
        self.tracker.spec_window()
    }

    pub closed spec fn spec_field(&self) -> CommonField {
        self.field
    }

    /// The value that was fed last, if any.
    pub closed spec fn spec_prev(&self) -> Option<i64> {
        self.tracker.spec_prev()
    }

    /// Changes are plain differences.
    pub closed spec fn wf(&self) -> bool {
        !self.tracker.spec_use_percentage()
    }

    /// The retained changes after `value` is fed at `timestamp`.
    pub open spec fn spec_after_update(&self, timestamp: i64, value: i64) -> Seq<Entry> {
        match self.spec_prev() {
            Some(prev) => spec_prune(
                crate::indicators::trackers::spec_push(
                    self@,
                    self.spec_window(),
                    (timestamp, clamp_i64(value - prev)),
                ),
                self.spec_window(),
                timestamp,
            ),
            None => spec_prune(self@, self.spec_window(), timestamp),
        }
    }

    pub fn new(window: Window, field: CommonField) -> (r: Self)
        ensures
            r.wf(),
            r@ == Seq::<Entry>::empty(),
            r.spec_prev().is_none(),
            r.spec_window() == window,
            r.spec_field() == field,
    {
        RSI { tracker: ChangeTracker::absolute(window), field }
    }

    /// Convenience constructor for close price RSI (most common).
    pub fn close(window: Window) -> (r: Self)
        ensures
            r.wf(),
            r@ == Seq::<Entry>::empty(),
            r.spec_prev().is_none(),
            r.spec_window() == window,
            r.spec_field() == CommonField::Close,
    {
        Self::new(window, CommonField::Close)
    }

    /// A new indicator of the same field over the same window.
    pub fn fresh(&self) -> (r: Self)
        ensures
            r.wf(),
            r@ == Seq::<Entry>::empty(),
            r.spec_prev().is_none(),
            r.spec_window() == self.spec_window(),
            r.spec_field() == self.spec_field(),
    {
        Self::new(self.tracker.window(), self.field)
    }

    /// Feeds the field of `row`: records its change from the value fed
    /// before.
    pub fn update(&mut self, row: &Row)
        requires
            old(self).wf(),
        ensures
            final(self).wf(),
            final(self)@ == old(self).spec_after_update(
                row.timestamp,
                old(self).spec_field().spec_extract(*row),
            ),
            final(self).spec_prev() == Some(old(self).spec_field().spec_extract(*row)),
            final(self).spec_window() == old(self).spec_window(),
            final(self).spec_field() == old(self).spec_field(),
    {
        let value: i64 = self.field.extract(row);
        self.tracker.push(row.timestamp, value);
        self.tracker.prune(row.timestamp);
    }

    /// The RSI value on a scale from 0 to 100; `None` while the window holds
    /// no change.
    pub fn get(&self) -> (r: Option<i64>)
        ensures
            r == spec_rsi(self@),
    {
        if self.tracker.count() == 0 {
            return None;
        }
        let avg_gain: i64 = self.tracker.average_gain();
        let avg_loss: i64 = self.tracker.average_loss();
        if avg_loss == 0 {
            return Some(HUNDRED);
        }
        proof {
            lemma_gains_losses_bounds(self@);
            let n = self@.len() as int;
            let g = gains(self@);
            let l = losses(self@);
            assert(g / n >= 0 && l / n >= 0) by (nonlinear_arith)
                requires
                    n > 0,
                    g >= 0,
                    l >= 0,
            ;
            lemma_rsi_range(avg_gain, avg_loss);
        }
        let numerator: i128 = HUNDRED as i128 * avg_gain as i128;
        let denominator: i128 = avg_gain as i128 + avg_loss as i128;
        Some(saturate(div_floor(numerator, denominator)))
    }

    pub fn reset(&mut self)
        ensures
            final(self).wf() == old(self).wf(),
            final(self)@ == Seq::<Entry>::empty(),
            final(self).spec_prev().is_none(),
            final(self).spec_window() == old(self).spec_window(),
            final(self).spec_field() == old(self).spec_field(),
    {
        self.tracker.clear();
    }

    pub fn name(&self) -> (r: &'static str)
        ensures
            r@ == "RSI"@,
    {
        "RSI"
    }
}

} // verus!
