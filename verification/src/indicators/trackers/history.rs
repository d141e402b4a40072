//! The tracker that keeps the whole window.

use super::{expired_prefix, in_window, keep_last, spec_prune, spec_push, Entry};
use crate::indicators::window::Window;
use std::collections::VecDeque;
use vstd::prelude::*;

verus! {

/// Stores every entry of a sliding window, for indicators that need the full
/// history.
#[derive(Debug, Clone)]
pub struct HistoryTracker {
    /// Entries in the window, oldest first.
    values: VecDeque<Entry>,
    /// The window to track.
    window: Window,
}

impl View for HistoryTracker {
    type V = Seq<Entry>;

    closed spec fn view(&self) -> Seq<Entry> {
        self.values@
    }
}

impl HistoryTracker {
    /// The window this tracker was made with.
    pub closed spec fn spec_window(&self) -> Window {
        self.window
    }

    /// The value of the latest entry; `None` when there is none.
    pub open spec fn spec_latest(s: Seq<Entry>) -> Option<i64> {
        if s.len() == 0 {
            None
        } else {
            Some(s.last().1)
        }
    }

    pub fn new(window: Window) -> (r: Self)
        ensures
            r@ == Seq::<Entry>::empty(),
            r.spec_window() == window,
    {
        HistoryTracker { values: VecDeque::new(), window }
    }

    /// The window this tracker was made with.
    pub fn window(&self) -> (r: Window)
        ensures
            r == self.spec_window(),
    {
        self.window
    }

    /// All entries in the current window, oldest first.
    pub fn values(&self) -> (r: &VecDeque<Entry>)
        ensures
            r@ == self@,
    {
        &self.values
    }

    /// The number of entries in the window.
    pub fn len(&self) -> (r: usize)
        ensures
            r == self@.len(),
    {
        self.values.len()
    }

    /// Whether the window holds no entry.
    pub fn is_empty(&self) -> (r: bool)
        ensures
            r == (self@.len() == 0),
    {
        self.values.len() == 0
    }

    /// The entry at `index`, counted from the oldest.
    pub fn entry(&self, index: usize) -> (r: Entry)
        requires
            index < self@.len(),
        ensures
            r == self@[index as int],
    {
        self.values[index]
    }

    /// Adds an entry; a count window then drops its oldest entries down to its
    /// count.
    pub fn push(&mut self, timestamp: i64, value: i64)
        ensures
            final(self)@ == spec_push(old(self)@, old(self).spec_window(), (timestamp, value)),
            final(self).spec_window() == old(self).spec_window(),
    {
        self.values.push_back((timestamp, value));
        let ghost pushed = self.values@;
        if let Window::Bars(n) = self.window {
            while self.values.len() > n
                invariant
                    self.window == Window::Bars(n),
                    self.values@.len() <= pushed.len(),
                    self.values@.len() >= n || self.values@.len() == pushed.len(),
                    self.values@ == pushed.skip(pushed.len() - self.values@.len()),
                decreases self.values@.len(),
            {
                let _ = self.values.pop_front();
                assert(self.values@ =~= pushed.skip(pushed.len() - self.values@.len()));
            }
            assert(self.values@ =~= keep_last(pushed, n as int));
        }
    }

    /// The value of the most recent entry.
    pub fn get(&self) -> (r: Option<i64>)
        ensures
            r == Self::spec_latest(self@),
    {
        let n: usize = self.values.len();
        if n == 0 {
            None
        } else {
            let back: Entry = self.values[n - 1];
            Some(back.1)
        }
    }

    /// Drops entries from the front for as long as the front lies outside the
    /// window that ends at `current_timestamp`.
    pub fn prune(&mut self, current_timestamp: i64)
        ensures
            final(self)@ == spec_prune(old(self)@, old(self).spec_window(), current_timestamp),
            final(self).spec_window() == old(self).spec_window(),
    {
        let ghost start = self.values@;
        let ghost mut dropped: int = 0;
        loop
            invariant
                self.window == old(self).window,
                0 <= dropped <= start.len(),
                self.values@ == start.skip(dropped),
                expired_prefix(start, self.window, current_timestamp) == dropped
                    + expired_prefix(self.values@, self.window, current_timestamp),
            ensures
                self.values@ == spec_prune(start, self.window, current_timestamp),
            decreases self.values@.len(),
        {
            if self.values.len() == 0 {
                break ;
            }
            let front: Entry = self.values[0];
            if in_window(&self.window, current_timestamp, front.0) {
                break ;
            }
            let ghost before = self.values@;
            let _ = self.values.pop_front();
            proof {
                assert(self.values@ =~= before.drop_first());
                dropped = dropped + 1;
                assert(self.values@ =~= start.skip(dropped));
            }
        }
    }

    /// Forgets every entry.
    pub fn clear(&mut self)
        ensures
            final(self)@ == Seq::<Entry>::empty(),
            final(self).spec_window() == old(self).spec_window(),
    {
        self.values.clear();
    }
}

} // verus!
