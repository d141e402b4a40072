//! The tracker behind standard deviation.

use super::history::HistoryTracker;
use super::{lemma_mean_fits, lemma_total_fits, mean, spec_prune, spec_push, total, Entry};
use crate::fixed::{clamp_i64, clamp_u128, div_floor, floor_sqrt, isqrt, saturate, SCALE};
use crate::indicators::window::{Window, WindowConfig};
use vstd::std_specs::convert::IntoSpec;
use vstd::prelude::*;

verus! {

/// The sum of the squared distances of the values of `s` from `m`.
pub open spec fn sq_dev_from(s: Seq<Entry>, m: int) -> int
    decreases s.len(),
{
    if s.len() == 0 {
        0
    } else {
        sq_dev_from(s.drop_last(), m) + (s.last().1 - m) * (s.last().1 - m)
    }
}

/// The sum of the squared deviations of the values of `s` from their mean.
pub open spec fn sum_sq_dev(s: Seq<Entry>) -> int {
    match mean(s) {
        Some(m) => sq_dev_from(s, m as int),
        None => 0,
    }
}

/// The variance of the values of `s` as a fixed-point number: the sum of
/// squared deviations (saturating at `u128::MAX`) over the count.
pub open spec fn spec_variance(s: Seq<Entry>) -> Option<i64> {
    if s.len() == 0 {
        None
    } else {
        Some(clamp_i64(((clamp_u128(sum_sq_dev(s)) as int) / (s.len() as int)) / (SCALE as int)))
    }
}

/// The standard deviation of the values of `s`: the square root of the sum of
/// squared deviations over the count.
pub open spec fn spec_std_dev(s: Seq<Entry>) -> Option<i64> {
    if s.len() == 0 {
        None
    } else {
        Some(clamp_i64(floor_sqrt((clamp_u128(sum_sq_dev(s)) as int) / (s.len() as int))))
    }
}

/// A sum of squares is never negative.
pub proof fn lemma_sq_dev_nonnegative(s: Seq<Entry>, m: int)
    ensures
        sq_dev_from(s, m) >= 0,
    decreases s.len(),
{
    if s.len() > 0 {
        lemma_sq_dev_nonnegative(s.drop_last(), m);
        let d = s.last().1 - m;
        assert(d * d >= 0) by (nonlinear_arith);
    }
}

/// Tracks the running sum and the sum of squared deviations of a sliding
/// window. The squared deviations are recomputed from the retained values on
/// every change, so they never drift.
#[derive(Debug, Clone)]
pub struct VarianceTracker {
    /// The entries in the window.
    values: HistoryTracker,
    /// Running sum for the mean.
    sum: i128,
    /// Sum of squared differences from the mean, saturating.
    sum_sq_diff: u128,
}

impl View for VarianceTracker {
    type V = Seq<Entry>;

    closed spec fn view(&self) -> Seq<Entry> {
        self.values@
    }
}

impl VarianceTracker {
    /// The window this tracker was made with.
    pub closed spec fn spec_window(&self) -> Window {
        self.values.spec_window()
    }

    /// The cached sums agree with the retained values.
    pub closed spec fn wf(&self) -> bool {
        &&& self.sum == total(self.values@)
        &&& self.sum_sq_diff == clamp_u128(sum_sq_dev(self.values@))
    }

    /// Create a new VarianceTracker. The window is given as it is, or with a
    /// rounding flag, which the tracker sets aside.
    pub fn new<W: Into<WindowConfig>>(window: W) -> (r: Self)
        ensures
            r.wf(),
            r@ == Seq::<Entry>::empty(),
            W::obeys_into_spec() ==> r.spec_window() == W::into_spec(window).window,
    {
        let config: WindowConfig = window.into();
        VarianceTracker { values: HistoryTracker::new(config.window), sum: 0, sum_sq_diff: 0 }
    }

    /// The window this tracker was made with.
    pub fn window(&self) -> (r: Window)
        ensures
            r == self.spec_window(),
    {
        self.values.window()
    }

    /// The number of retained entries.
    pub fn count(&self) -> (r: usize)
        ensures
            r == self@.len(),
    {
        self.values.len()
    }

    /// The current mean, rounded down.
    pub fn mean(&self) -> (r: Option<i64>)
        requires
            self.wf(),
        ensures
            r == mean(self@),
    {
        let n: usize = self.values.len();
        if n == 0 {
            None
        } else {
            proof {
                lemma_mean_fits(self@);
            }
            Some(saturate(div_floor(self.sum, n as i128)))
        }
    }

    /// The variance.
    pub fn variance(&self) -> (r: Option<i64>)
        requires
            self.wf(),
        ensures
            r == spec_variance(self@),
    {
        let n: usize = self.values.len();
        if n == 0 {
            None
        } else {
            let per_entry: u128 = self.sum_sq_diff / n as u128;
            let scaled: u128 = per_entry / SCALE as u128;
            if scaled > i64::MAX as u128 {
                Some(i64::MAX)
            } else {
                Some(scaled as i64)
            }
        }
    }

    /// The standard deviation.
    pub fn std_dev(&self) -> (r: Option<i64>)
        requires
            self.wf(),
        ensures
            r == spec_std_dev(self@),
    {
        let n: usize = self.values.len();
        if n == 0 {
            None
        } else {
            let root: u64 = isqrt(self.sum_sq_diff / n as u128);
            if root > i64::MAX as u64 {
                Some(i64::MAX)
            } else {
                Some(root as i64)
            }
        }
    }

    /// Recomputes the sum and the squared deviations from the retained values.
    fn recalculate(&mut self)
        ensures
            final(self).wf(),
            final(self).values == old(self).values,
    {
        let n: usize = self.values.len();
        if n == 0 {
            self.sum = 0;
            self.sum_sq_diff = 0;
            return ;
        }
        let mut acc: i128 = 0;
        let mut i: usize = 0;
        while i < n
            invariant
                n == self.values@.len(),
                i <= n,
                acc == total(self.values@.take(i as int)),
            decreases n - i,
        {
            let e: Entry = self.values.entry(i);
            proof {
                assert(self.values@.take(i + 1).drop_last() =~= self.values@.take(i as int));
                lemma_total_fits(self.values@.take(i + 1));
            }
            acc = acc + e.1 as i128;
            i = i + 1;
        }
        assert(self.values@.take(n as int) =~= self.values@);
        proof {
            lemma_mean_fits(self.values@);
        }
        let m: i64 = saturate(div_floor(acc, n as i128));
        let mut squares: u128 = 0;
        let mut j: usize = 0;
        while j < n
            invariant
                n == self.values@.len(),
                j <= n,
                squares == clamp_u128(sq_dev_from(self.values@.take(j as int), m as int)),
            decreases n - j,
        {
            let e: Entry = self.values.entry(j);
            let diff: i128 = e.1 as i128 - m as i128;
            let dist: u128 = if diff >= 0 {
                diff as u128
            } else {
                (-diff) as u128
            };
            proof {
                assert(self.values@.take(j + 1).drop_last() =~= self.values@.take(j as int));
                lemma_sq_dev_nonnegative(self.values@.take(j as int), m as int);
                assert(dist * dist == (e.1 - m) * (e.1 - m) && dist * dist
                    <= 0xffff_ffff_ffff_ffff * 0xffff_ffff_ffff_ffff) by (nonlinear_arith)
                    requires
                        dist == diff || dist == -diff,
                        diff == e.1 - m,
                        0 <= dist <= 0xffff_ffff_ffff_ffff,
                ;
            }
            squares = squares.saturating_add(dist * dist);
            j = j + 1;
        }
        assert(self.values@.take(n as int) =~= self.values@);
        self.sum = acc;
        self.sum_sq_diff = squares;
    }

    /// Adds an entry; a count window then drops its oldest entries down to its
    /// count.
    pub fn push(&mut self, timestamp: i64, value: i64)
        ensures
            final(self).wf(),
            final(self)@ == spec_push(old(self)@, old(self).spec_window(), (timestamp, value)),
            final(self).spec_window() == old(self).spec_window(),
    {
        self.values.push(timestamp, value);
        self.recalculate();
    }

    /// The standard deviation of the retained values; `None` while the window
    /// is empty.
    pub fn get(&self) -> (r: Option<i64>)
        requires
            self.wf(),
        ensures
            r == spec_std_dev(self@),
    {
        self.std_dev()
    }

    /// Drops entries from the front for as long as the front lies outside the
    /// window that ends at `current_timestamp`.
    pub fn prune(&mut self, current_timestamp: i64)
        ensures
            final(self).wf(),
            final(self)@ == spec_prune(old(self)@, old(self).spec_window(), current_timestamp),
            final(self).spec_window() == old(self).spec_window(),
    {
        self.values.prune(current_timestamp);
        self.recalculate();
    }

    /// Forgets every entry.
    pub fn clear(&mut self)
        ensures
            final(self).wf(),
            final(self)@ == Seq::<Entry>::empty(),
            final(self).spec_window() == old(self).spec_window(),
    {
        self.values.clear();
        self.sum = 0;
        self.sum_sq_diff = 0;
    }
}

} // verus!
