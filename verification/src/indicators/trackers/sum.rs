//! The running-sum tracker behind moving averages and volume accumulation.

use super::{
    expired_prefix, in_window, keep_last, lemma_mean_fits, lemma_total_drop_first,
    lemma_total_fits, mean, spec_prune, spec_push, total, Entry,
};
use crate::fixed::saturate;
use crate::indicators::window::Window;
use std::collections::VecDeque;
use vstd::prelude::*;

verus! {

/// Tracks the entries of a sliding window together with their running sum.
#[derive(Debug, Clone)]
pub struct SumTracker {
    /// Entries in the window, oldest first.
    values: VecDeque<Entry>,
    /// Running sum of all values in the window.
    sum: i128,
    /// The window to track.
    window: Window,
}

impl View for SumTracker {
    type V = Seq<Entry>;

    closed spec fn view(&self) -> Seq<Entry> {
        self.values@
    }
}

impl SumTracker {
    /// The window this tracker was made with.
    pub closed spec fn spec_window(&self) -> Window {
        self.window
    }

    /// The running sum equals the sum of the retained values, and a count
    /// window never holds more entries than its count.
    pub closed spec fn wf(&self) -> bool {
        &&& self.sum == total(self.values@)
        &&& match self.window {
            Window::Bars(n) => self.values@.len() <= n,
            _ => true,
        }
    }

    /// A count window never holds more entries than its count.
    pub proof fn lemma_bounded(&self)
        requires
            self.wf(),
        ensures
            match self.spec_window() {
                Window::Bars(n) => self@.len() <= n,
                _ => true,
            },
    {
    }

    pub fn new(window: Window) -> (r: Self)
        ensures
            r.wf(),
            r@ == Seq::<Entry>::empty(),
            r.spec_window() == window,
    {
        SumTracker { values: VecDeque::new(), sum: 0, window }
    }

    /// The window this tracker was made with.
    pub fn window(&self) -> (r: Window)
        ensures
            r == self.spec_window(),
    {
        self.window
    }

    /// The current sum of the retained values.
    pub fn sum(&self) -> (r: i128)
        requires
            self.wf(),
        ensures
            r == total(self@),
    {
        self.sum
    }

    /// The number of retained entries.
    pub fn count(&self) -> (r: usize)
        ensures
            r == self@.len(),
    {
        self.values.len()
    }

    /// The average value (sum / count), rounded down.
    pub fn average(&self) -> (r: Option<i64>)
        requires
            self.wf(),
        ensures
            r == mean(self@),
    {
        let n: usize = self.values.len();
        if n == 0 {
            None
        } else {
            proof {
                lemma_mean_fits(self.values@);
            }
            Some(saturate(crate::fixed::div_floor(self.sum, n as i128)))
        }
    }

    /// Drops the oldest entry and takes its value out of the sum.
    fn pop_oldest(&mut self)
        requires
            old(self).sum == total(old(self).values@),
            old(self).values@.len() > 0,
        ensures
            final(self).sum == total(final(self).values@),
            final(self).values@ == old(self).values@.drop_first(),
            final(self).window == old(self).window,
    {
        proof {
            assert(self.values@.len() == self.values.len());
            lemma_total_drop_first(self.values@);
            lemma_total_fits(self.values@.drop_first());
        }
        let ghost before = self.values@;
        let popped = self.values.pop_front();
        assert(self.values@ =~= before.drop_first());
        match popped {
            Some(entry) => {
                self.sum = self.sum - entry.1 as i128;
            },
            None => {},
        }
    }

    /// Adds an entry; a count window then drops its oldest entries down to its
    /// count.
    pub fn push(&mut self, timestamp: i64, value: i64)
        requires
            old(self).wf(),
        ensures
            final(self).wf(),
            final(self)@ == spec_push(old(self)@, old(self).spec_window(), (timestamp, value)),
            final(self).spec_window() == old(self).spec_window(),
    {
        proof {
            assert(self.values@.len() == self.values.len());
            lemma_total_fits(self.values@.push((timestamp, value)));
            assert(self.values@.push((timestamp, value)).drop_last() =~= self.values@);
        }
        self.values.push_back((timestamp, value));
        self.sum = self.sum + value as i128;
        let ghost pushed = self.values@;
        if let Window::Bars(n) = self.window {
            while self.values.len() > n
                invariant
                    self.sum == total(self.values@),
                    self.window == Window::Bars(n),
                    self.values@.len() <= pushed.len(),
                    self.values@.len() >= n || self.values@.len() == pushed.len(),
                    self.values@ == pushed.skip(pushed.len() - self.values@.len()),
                decreases self.values@.len(),
            {
                self.pop_oldest();
                assert(self.values@ =~= pushed.skip(pushed.len() - self.values@.len()));
            }
            assert(self.values@ =~= keep_last(pushed, n as int));
        }
    }

    /// The average of the retained values; `None` while the window is empty.
    pub fn get(&self) -> (r: Option<i64>)
        requires
            self.wf(),
        ensures
            r == mean(self@),
    {
        self.average()
    }

    /// Drops entries from the front for as long as the front lies outside the
    /// window that ends at `current_timestamp`.
    pub fn prune(&mut self, current_timestamp: i64)
        requires
            old(self).wf(),
        ensures
            final(self).wf(),
            final(self)@ == spec_prune(old(self)@, old(self).spec_window(), current_timestamp),
            final(self).spec_window() == old(self).spec_window(),
    {
        let ghost start = self.values@;
        let ghost mut dropped: int = 0;
        loop
            invariant
                self.sum == total(self.values@),
                self.window == old(self).window,
                0 <= dropped <= start.len(),
                self.values@ == start.skip(dropped),
                expired_prefix(start, self.window, current_timestamp) == dropped
                    + expired_prefix(self.values@, self.window, current_timestamp),
                start.len() == old(self).values@.len(),
            ensures
                self.values@ == spec_prune(start, self.window, current_timestamp),
            decreases self.values@.len(),
        {
            if self.values.len() == 0 {
                break ;
            }
            let front: Entry = self.values[0];
            if in_window(&self.window, current_timestamp, front.0) {
                break ;
            }
            self.pop_oldest();
            proof {
                dropped = dropped + 1;
                assert(self.values@ =~= start.skip(dropped));
            }
        }
    }

    /// Forgets every entry.
    pub fn clear(&mut self)
        ensures
            final(self).wf(),
            final(self)@ == Seq::<Entry>::empty(),
            final(self).spec_window() == old(self).spec_window(),
    {
        self.values.clear();
        self.sum = 0;
    }
}

} // verus!
