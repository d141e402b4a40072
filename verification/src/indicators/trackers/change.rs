//! The tracker of changes between consecutive values.

use super::history::HistoryTracker;
use super::{
    lemma_mean_fits, lemma_total_fits, mean, spec_prune, spec_push, total, Entry,
};
use crate::fixed::{clamp_i64, div_floor, floor_quot, fx_sub, saturate, SCALE};
use crate::indicators::window::{Window, WindowConfig};
use vstd::std_specs::convert::IntoSpec;
use vstd::prelude::*;

verus! {

/// The change from `prev` to `value`: the plain difference, or the difference
/// as a percentage of `prev` (zero when `prev` is zero).
pub open spec fn spec_change(use_percentage: bool, prev: i64, value: i64) -> i64 {
    if use_percentage {
        if prev == 0 {
            0
        } else {
            clamp_i64(floor_quot((value - prev) * 100 * SCALE, prev as int))
        }
    } else {
        clamp_i64(value - prev)
    }
}

/// The sum of the positive changes of `s`.
pub open spec fn gains(s: Seq<Entry>) -> int
    decreases s.len(),
{
    if s.len() == 0 {
        0
    } else {
        gains(s.drop_last()) + (if s.last().1 > 0 {
            s.last().1 as int
        } else {
            0
        })
    }
}

/// The sum of the negative changes of `s`, taken positive.
pub open spec fn losses(s: Seq<Entry>) -> int
    decreases s.len(),
{
    if s.len() == 0 {
        0
    } else {
        losses(s.drop_last()) + (if s.last().1 < 0 {
            -(s.last().1 as int)
        } else {
            0
        })
    }
}

/// `total / count` rounded down and saturated, or zero for an empty window.
pub open spec fn average_or_zero(total: int, count: int) -> i64 {
    if count == 0 {
        0
    } else {
        clamp_i64(total / count)
    }
}

/// Gains and losses are non-negative and bounded by the number of changes.
pub proof fn lemma_gains_losses_bounds(s: Seq<Entry>)
    ensures
        0 <= gains(s) <= s.len() * i64::MAX,
        0 <= losses(s) <= s.len() * 0x8000_0000_0000_0000,
        total(s) == gains(s) - losses(s),
    decreases s.len(),
{
    if s.len() > 0 {
        lemma_gains_losses_bounds(s.drop_last());
        assert((s.len() - 1) * i64::MAX + i64::MAX == s.len() * i64::MAX) by (nonlinear_arith);
        assert((s.len() - 1) * 0x8000_0000_0000_0000 + 0x8000_0000_0000_0000 == s.len()
            * 0x8000_0000_0000_0000) by (nonlinear_arith);
    }
}

/// The change from `prev` to `value`: the plain difference, or the
/// difference as a percentage of `prev`.
pub fn change_between(use_percentage: bool, prev: i64, value: i64) -> (r: i64)
    ensures
        r == spec_change(use_percentage, prev, value),
{
    if use_percentage {
        if prev == 0 {
            0
        } else {
            let diff: i128 = value as i128 - prev as i128;
            assert(-0x1_0000_0000_0000_0000 * 100_000_000 <= diff * 100 * SCALE
                <= 0x1_0000_0000_0000_0000 * 100_000_000) by (nonlinear_arith)
                requires
                    -0x1_0000_0000_0000_0000 < diff < 0x1_0000_0000_0000_0000,
                    SCALE == 1_000_000,
            ;
            let scaled: i128 = diff * 100 * SCALE as i128;
            if prev > 0 {
                saturate(div_floor(scaled, prev as i128))
            } else {
                saturate(div_floor(-scaled, -(prev as i128)))
            }
        }
    } else {
        fx_sub(value, prev)
    }
}

/// Tracks the change between each value and the value before it over a
/// sliding window.
#[derive(Debug, Clone)]
pub struct ChangeTracker {
    /// The changes in the window, oldest first.
    changes: HistoryTracker,
    /// Previous value for calculating the next change.
    prev_value: Option<i64>,
    /// Whether to track percentage change instead of absolute change.
    use_percentage: bool,
}

impl View for ChangeTracker {
    type V = Seq<Entry>;

    closed spec fn view(&self) -> Seq<Entry> {
        self.changes@
    }
}

impl ChangeTracker {
    /// The window this tracker was made with.
    pub closed spec fn spec_window(&self) -> Window {
        self.changes.spec_window()
    }

    /// The value that was pushed last, if any.
    pub closed spec fn spec_prev(&self) -> Option<i64> {
        self.prev_value
    }

    /// Whether changes are percentages.
    pub closed spec fn spec_use_percentage(&self) -> bool {
        self.use_percentage
    }

    /// The retained changes after `value` is pushed at `timestamp`: the first
    /// value ever pushed only sets the base for the next change.
    pub open spec fn spec_after_push(&self, timestamp: i64, value: i64) -> Seq<Entry> {
        match self.spec_prev() {
            Some(prev) => spec_push(
                self@,
                self.spec_window(),
                (timestamp, spec_change(self.spec_use_percentage(), prev, value)),
            ),
            None => self@,
        }
    }

    /// Create a new change tracker. The window is given as it is, or with a
    /// rounding flag, which the tracker sets aside.
    pub fn new<W: Into<WindowConfig>>(window: W, use_percentage: bool) -> (r: Self)
        ensures
            r@ == Seq::<Entry>::empty(),
            r.spec_prev().is_none(),
            W::obeys_into_spec() ==> r.spec_window() == W::into_spec(window).window,
            r.spec_use_percentage() == use_percentage,
    {
        let config: WindowConfig = window.into();
        ChangeTracker {
            changes: HistoryTracker::new(config.window),
            prev_value: None,
            use_percentage,
        }
    }

    /// The window this tracker was made with.
    pub fn window(&self) -> (r: Window)
        ensures
            r == self.spec_window(),
    {
        self.changes.window()
    }

    /// Whether changes are percentages.
    pub fn uses_percentage(&self) -> (r: bool)
        ensures
            r == self.spec_use_percentage(),
    {
        self.use_percentage
    }

    /// Create a tracker for absolute changes.
    pub fn absolute<W: Into<WindowConfig>>(window: W) -> (r: Self)
        ensures
            r@ == Seq::<Entry>::empty(),
            r.spec_prev().is_none(),
            W::obeys_into_spec() ==> r.spec_window() == W::into_spec(window).window,
            !r.spec_use_percentage(),
    {
        Self::new(window, false)
    }

    /// Create a tracker for percentage changes.
    pub fn percentage<W: Into<WindowConfig>>(window: W) -> (r: Self)
        ensures
            r@ == Seq::<Entry>::empty(),
            r.spec_prev().is_none(),
            W::obeys_into_spec() ==> r.spec_window() == W::into_spec(window).window,
            r.spec_use_percentage(),
    {
        Self::new(window, true)
    }

    /// All changes in the current window, oldest first.
    pub fn changes(&self) -> (r: &std::collections::VecDeque<Entry>)
        ensures
            r@ == self@,
    {
        self.changes.values()
    }

    /// The number of changes in the window.
    pub fn count(&self) -> (r: usize)
        ensures
            r == self@.len(),
    {
        self.changes.len()
    }

    /// The sum of all changes.
    pub fn sum(&self) -> (r: i128)
        ensures
            r == total(self@),
    {
        let n: usize = self.changes.len();
        let mut acc: i128 = 0;
        let mut i: usize = 0;
        while i < n
            invariant
                n == self@.len(),
                i <= n,
                acc == total(self@.take(i as int)),
            decreases n - i,
        {
            let e: Entry = self.changes.entry(i);
            proof {
                assert(self@.take(i + 1).drop_last() =~= self@.take(i as int));
                lemma_total_fits(self@.take(i + 1));
            }
            acc = acc + e.1 as i128;
            i = i + 1;
        }
        assert(self@.take(n as int) =~= self@);
        acc
    }

    /// The average change, rounded down; `None` while there is no change.
    pub fn average(&self) -> (r: Option<i64>)
        ensures
            r == mean(self@),
    {
        let n: usize = self.changes.len();
        if n == 0 {
            None
        } else {
            proof {
                lemma_mean_fits(self@);
            }
            Some(saturate(div_floor(self.sum(), n as i128)))
        }
    }

    /// The sum of the positive changes (gains).
    pub fn sum_gains(&self) -> (r: i128)
        ensures
            r == gains(self@),
    {
        let n: usize = self.changes.len();
        let mut acc: i128 = 0;
        let mut i: usize = 0;
        while i < n
            invariant
                n == self@.len(),
                i <= n,
                acc == gains(self@.take(i as int)),
            decreases n - i,
        {
            let e: Entry = self.changes.entry(i);
            proof {
                assert(self@.take(i + 1).drop_last() =~= self@.take(i as int));
                lemma_gains_losses_bounds(self@.take(i + 1));
                assert((i + 1) * i64::MAX <= i128::MAX) by (nonlinear_arith)
                    requires
                        0 <= i < usize::MAX,
                ;
            }
            if e.1 > 0 {
                acc = acc + e.1 as i128;
            }
            i = i + 1;
        }
        assert(self@.take(n as int) =~= self@);
        acc
    }

    /// The sum of the negative changes (losses), as a positive value.
    pub fn sum_losses(&self) -> (r: i128)
        ensures
            r == losses(self@),
    {
        let n: usize = self.changes.len();
        let mut acc: i128 = 0;
        let mut i: usize = 0;
        while i < n
            invariant
                n == self@.len(),
                i <= n,
                acc == losses(self@.take(i as int)),
            decreases n - i,
        {
            let e: Entry = self.changes.entry(i);
            proof {
                assert(self@.take(i + 1).drop_last() =~= self@.take(i as int));
                lemma_gains_losses_bounds(self@.take(i + 1));
                assert((i + 1) * 0x8000_0000_0000_0000 <= i128::MAX) by (nonlinear_arith)
                    requires
                        0 <= i < usize::MAX,
                ;
            }
            if e.1 < 0 {
                acc = acc - e.1 as i128;
            }
            i = i + 1;
        }
        assert(self@.take(n as int) =~= self@);
        acc
    }

    /// The average gain over all changes of the window; zero while there is
    /// no change.
    pub fn average_gain(&self) -> (r: i64)
        ensures
            r == average_or_zero(gains(self@), self@.len() as int),
    {
        let n: usize = self.changes.len();
        if n == 0 {
            0
        } else {
            saturate(div_floor(self.sum_gains(), n as i128))
        }
    }

    /// The average loss over all changes of the window; zero while there is
    /// no change.
    pub fn average_loss(&self) -> (r: i64)
        ensures
            r == average_or_zero(losses(self@), self@.len() as int),
    {
        let n: usize = self.changes.len();
        if n == 0 {
            0
        } else {
            saturate(div_floor(self.sum_losses(), n as i128))
        }
    }

    /// Records the change from the previous value to `value`, then makes
    /// `value` the previous value.
    pub fn push(&mut self, timestamp: i64, value: i64)
        ensures
            final(self)@ == old(self).spec_after_push(timestamp, value),
            final(self).spec_prev() == Some(value),
            final(self).spec_window() == old(self).spec_window(),
            final(self).spec_use_percentage() == old(self).spec_use_percentage(),
    {
        if let Some(prev) = self.prev_value {
            let change: i64 = change_between(self.use_percentage, prev, value);
            self.changes.push(timestamp, change);
        }
        self.prev_value = Some(value);
    }

    /// The most recent change.
    pub fn get(&self) -> (r: Option<i64>)
        ensures
            r == HistoryTracker::spec_latest(self@),
    {
        self.changes.get()
    }

    /// Drops changes from the front for as long as the front lies outside the
    /// window that ends at `current_timestamp`.
    pub fn prune(&mut self, current_timestamp: i64)
        ensures
            final(self)@ == spec_prune(old(self)@, old(self).spec_window(), current_timestamp),
            final(self).spec_prev() == old(self).spec_prev(),
            final(self).spec_window() == old(self).spec_window(),
            final(self).spec_use_percentage() == old(self).spec_use_percentage(),
    {
        self.changes.prune(current_timestamp);
    }

    /// Forgets every change and the previous value.
    pub fn clear(&mut self)
        ensures
            final(self)@ == Seq::<Entry>::empty(),
            final(self).spec_prev().is_none(),
            final(self).spec_window() == old(self).spec_window(),
            final(self).spec_use_percentage() == old(self).spec_use_percentage(),
    {
        self.changes.clear();
        self.prev_value = None;
    }
}

} // verus!
