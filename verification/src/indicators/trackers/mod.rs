//! Sliding-window accumulators.
//!
//! Every tracker consumes a stream of `(timestamp, value)` entries and is
//! described by the sequence of entries that its window retains. A count
//! window retains the last `n` entries that were pushed. A duration window
//! retains everything until `prune` is called, which drops entries from the
//! front for as long as the front lies outside
//! `[reference - duration, reference]`.

pub mod change;
pub mod extremum;
pub mod history;
pub mod sum;
pub mod variance;

pub use change::ChangeTracker;
pub use extremum::ExtremumTracker;
pub use history::HistoryTracker;
pub use sum::SumTracker;
pub use variance::VarianceTracker;

use crate::indicators::window::Window;
use vstd::prelude::*;

verus! {

/// One retained observation: `(timestamp, value)`.
pub type Entry = (i64, i64);

/// Whether an entry stamped `check` is kept when the window is pruned at
/// `current`. Count windows are bounded on push and keep everything here.
pub open spec fn spec_in_window(window: Window, current: i64, check: i64) -> bool {
    match window {
        Window::Bars(_) => true,
        _ => window.spec_contains(current, check),
    }
}

/// The last `n` entries of `s`, or all of `s` if it has fewer.
pub open spec fn keep_last(s: Seq<Entry>, n: int) -> Seq<Entry> {
    if s.len() > n {
        s.subrange(s.len() - n, s.len() as int)
    } else {
        s
    }
}

/// The retained entries after `entry` is pushed.
pub open spec fn spec_push(s: Seq<Entry>, window: Window, entry: Entry) -> Seq<Entry> {
    match window {
        Window::Bars(n) => keep_last(s.push(entry), n as int),
        _ => s.push(entry),
    }
}

/// The number of leading entries that lie outside the window at `current`.
pub open spec fn expired_prefix(s: Seq<Entry>, window: Window, current: i64) -> nat
    decreases s.len(),
{
    if s.len() == 0 || spec_in_window(window, current, s[0].0) {
        0
    } else {
        1 + expired_prefix(s.drop_first(), window, current)
    }
}

/// The retained entries after pruning at `current`.
pub open spec fn spec_prune(s: Seq<Entry>, window: Window, current: i64) -> Seq<Entry> {
    s.skip(expired_prefix(s, window, current) as int)
}

/// The retained entries after all of `pushes` went into an empty tracker.
pub open spec fn after_pushes(pushes: Seq<Entry>, window: Window) -> Seq<Entry>
    decreases pushes.len(),
{
    if pushes.len() == 0 {
        Seq::empty()
    } else {
        spec_push(after_pushes(pushes.drop_last(), window), window, pushes.last())
    }
}

/// The sum of the values of `s`.
pub open spec fn total(s: Seq<Entry>) -> int
    decreases s.len(),
{
    if s.len() == 0 {
        0
    } else {
        total(s.drop_last()) + s.last().1
    }
}

/// Timestamps never decrease along `s`.
pub open spec fn timestamps_sorted(s: Seq<Entry>) -> bool {
    forall|i: int, j: int| 0 <= i <= j < s.len() ==> s[i].0 <= s[j].0
}

/// The arithmetic mean of the values of `s`, rounded down; `None` when `s` is
/// empty.
pub open spec fn mean(s: Seq<Entry>) -> Option<i64> {
    if s.len() == 0 {
        None
    } else {
        Some((total(s) / (s.len() as int)) as i64)
    }
}

/// What all trackers share: they take entries, answer one query, and drop
/// what has left the window.
pub trait WindowTracker {
    /// The tracker's internal state is consistent.
    spec fn wf(&self) -> bool;

    /// The window this tracker was made with.
    spec fn spec_window(&self) -> Window;

    /// The entries that the window retains.
    spec fn spec_retained(&self) -> Seq<Entry>;

    /// Whether an entry stamped `timestamp` may be pushed, and whether the
    /// window may be pruned at `timestamp`.
    spec fn spec_accepts(&self, timestamp: i64) -> bool;

    /// The answer to the tracker's query.
    spec fn spec_value(&self) -> Option<i64>;

    /// Add a new data point to the tracker.
    fn push(&mut self, timestamp: i64, value: i64)
        requires
            old(self).wf(),
            old(self).spec_accepts(timestamp),
        ensures
            final(self).wf(),
            final(self).spec_window() == old(self).spec_window(),
    ;

    /// Get the current result; `None` while the tracker is not ready.
    fn get(&self) -> (r: Option<i64>)
        requires
            self.wf(),
        ensures
            r == self.spec_value(),
    ;

    /// Remove data points that fall outside the window.
    fn prune(&mut self, current_timestamp: i64)
        requires
            old(self).wf(),
            old(self).spec_accepts(current_timestamp),
        ensures
            final(self).wf(),
            final(self).spec_window() == old(self).spec_window(),
            final(self).spec_retained() == spec_prune(
                old(self).spec_retained(),
                old(self).spec_window(),
                current_timestamp,
            ),
    ;

    /// Clear all tracked data.
    fn clear(&mut self)
        requires
            old(self).wf(),
        ensures
            final(self).wf(),
            final(self).spec_window() == old(self).spec_window(),
            final(self).spec_retained() == Seq::<Entry>::empty(),
    ;

    /// Whether a timestamp is kept when a tracker with `window` is pruned.
    fn in_window(&self, window: &Window, current_timestamp: i64, check_timestamp: i64) -> (r: bool)
        ensures
            r == spec_in_window(*window, current_timestamp, check_timestamp),
    ;
}

impl WindowTracker for SumTracker {
    open spec fn wf(&self) -> bool {
        SumTracker::wf(self)
    }

    open spec fn spec_window(&self) -> Window {
        SumTracker::spec_window(self)
    }

    open spec fn spec_retained(&self) -> Seq<Entry> {
        self@
    }

    open spec fn spec_accepts(&self, timestamp: i64) -> bool {
        true
    }

    open spec fn spec_value(&self) -> Option<i64> {
        mean(self@)
    }

    fn push(&mut self, timestamp: i64, value: i64)
        ensures
            final(self)@ == spec_push(old(self)@, old(self).spec_window(), (timestamp, value)),
    {
        SumTracker::push(self, timestamp, value)
    }

    fn get(&self) -> (r: Option<i64>) {
        SumTracker::get(self)
    }

    fn prune(&mut self, current_timestamp: i64) {
        SumTracker::prune(self, current_timestamp)
    }

    fn clear(&mut self) {
        SumTracker::clear(self)
    }

    fn in_window(&self, window: &Window, current_timestamp: i64, check_timestamp: i64) -> (r:
        bool) {
        in_window(window, current_timestamp, check_timestamp)
    }
}

impl WindowTracker for ExtremumTracker {
    open spec fn wf(&self) -> bool {
        ExtremumTracker::wf(self)
    }

    open spec fn spec_window(&self) -> Window {
        ExtremumTracker::spec_window(self)
    }

    open spec fn spec_retained(&self) -> Seq<Entry> {
        self@
    }

    open spec fn spec_accepts(&self, timestamp: i64) -> bool {
        ExtremumTracker::spec_accepts(self, timestamp)
    }

    open spec fn spec_value(&self) -> Option<i64> {
        extremum::extremum(self@, self.spec_track_max())
    }

    fn push(&mut self, timestamp: i64, value: i64)
        ensures
            final(self)@ == spec_push(old(self)@, old(self).spec_window(), (timestamp, value)),
            final(self).spec_track_max() == old(self).spec_track_max(),
    {
        ExtremumTracker::push(self, timestamp, value)
    }

    fn get(&self) -> (r: Option<i64>) {
        ExtremumTracker::get(self)
    }

    fn prune(&mut self, current_timestamp: i64)
        ensures
            final(self).spec_track_max() == old(self).spec_track_max(),
    {
        ExtremumTracker::prune(self, current_timestamp)
    }

    fn clear(&mut self)
        ensures
            final(self).spec_track_max() == old(self).spec_track_max(),
    {
        ExtremumTracker::clear(self)
    }

    fn in_window(&self, window: &Window, current_timestamp: i64, check_timestamp: i64) -> (r:
        bool) {
        in_window(window, current_timestamp, check_timestamp)
    }
}

impl WindowTracker for VarianceTracker {
    open spec fn wf(&self) -> bool {
        VarianceTracker::wf(self)
    }

    open spec fn spec_window(&self) -> Window {
        VarianceTracker::spec_window(self)
    }

    open spec fn spec_retained(&self) -> Seq<Entry> {
        self@
    }

    open spec fn spec_accepts(&self, timestamp: i64) -> bool {
        true
    }

    open spec fn spec_value(&self) -> Option<i64> {
        variance::spec_std_dev(self@)
    }

    fn push(&mut self, timestamp: i64, value: i64)
        ensures
            final(self)@ == spec_push(old(self)@, old(self).spec_window(), (timestamp, value)),
    {
        VarianceTracker::push(self, timestamp, value)
    }

    fn get(&self) -> (r: Option<i64>) {
        VarianceTracker::get(self)
    }

    fn prune(&mut self, current_timestamp: i64) {
        VarianceTracker::prune(self, current_timestamp)
    }

    fn clear(&mut self) {
        VarianceTracker::clear(self)
    }

    fn in_window(&self, window: &Window, current_timestamp: i64, check_timestamp: i64) -> (r:
        bool) {
        in_window(window, current_timestamp, check_timestamp)
    }
}

impl WindowTracker for ChangeTracker {
    open spec fn wf(&self) -> bool {
        true
    }

    open spec fn spec_window(&self) -> Window {
        ChangeTracker::spec_window(self)
    }

    /// The changes that the window retains.
    open spec fn spec_retained(&self) -> Seq<Entry> {
        self@
    }

    open spec fn spec_accepts(&self, timestamp: i64) -> bool {
        true
    }

    open spec fn spec_value(&self) -> Option<i64> {
        HistoryTracker::spec_latest(self@)
    }

    fn push(&mut self, timestamp: i64, value: i64)
        ensures
            final(self)@ == old(self).spec_after_push(timestamp, value),
            final(self).spec_prev() == Some(value),
            final(self).spec_use_percentage() == old(self).spec_use_percentage(),
    {
        ChangeTracker::push(self, timestamp, value)
    }

    fn get(&self) -> (r: Option<i64>) {
        ChangeTracker::get(self)
    }

    fn prune(&mut self, current_timestamp: i64)
        ensures
            final(self).spec_prev() == old(self).spec_prev(),
            final(self).spec_use_percentage() == old(self).spec_use_percentage(),
    {
        ChangeTracker::prune(self, current_timestamp)
    }

    fn clear(&mut self)
        ensures
            final(self).spec_prev().is_none(),
            final(self).spec_use_percentage() == old(self).spec_use_percentage(),
    {
        ChangeTracker::clear(self)
    }

    fn in_window(&self, window: &Window, current_timestamp: i64, check_timestamp: i64) -> (r:
        bool) {
        in_window(window, current_timestamp, check_timestamp)
    }
}

impl WindowTracker for HistoryTracker {
    open spec fn wf(&self) -> bool {
        true
    }

    open spec fn spec_window(&self) -> Window {
        HistoryTracker::spec_window(self)
    }

    open spec fn spec_retained(&self) -> Seq<Entry> {
        self@
    }

    open spec fn spec_accepts(&self, timestamp: i64) -> bool {
        true
    }

    open spec fn spec_value(&self) -> Option<i64> {
        HistoryTracker::spec_latest(self@)
    }

    fn push(&mut self, timestamp: i64, value: i64)
        ensures
            final(self)@ == spec_push(old(self)@, old(self).spec_window(), (timestamp, value)),
    {
        HistoryTracker::push(self, timestamp, value)
    }

    fn get(&self) -> (r: Option<i64>) {
        HistoryTracker::get(self)
    }

    fn prune(&mut self, current_timestamp: i64) {
        HistoryTracker::prune(self, current_timestamp)
    }

    fn clear(&mut self) {
        HistoryTracker::clear(self)
    }

    fn in_window(&self, window: &Window, current_timestamp: i64, check_timestamp: i64) -> (r:
        bool) {
        in_window(window, current_timestamp, check_timestamp)
    }
}

/// Whether a timestamp is kept when a tracker with this window is pruned.
pub fn in_window(window: &Window, current_timestamp: i64, check_timestamp: i64) -> (r: bool)
    ensures
        r == spec_in_window(*window, current_timestamp, check_timestamp),
{
    match window {
        Window::Bars(_) => true,
        _ => window.contains(current_timestamp, check_timestamp),
    }
}

/// Pruning drops no more entries than there are.
pub proof fn lemma_expired_prefix_bound(s: Seq<Entry>, window: Window, current: i64)
    ensures
        expired_prefix(s, window, current) <= s.len(),
    decreases s.len(),
{
    if s.len() > 0 && !spec_in_window(window, current, s[0].0) {
        lemma_expired_prefix_bound(s.drop_first(), window, current);
    }
}

/// The sum of `n` 64-bit values lies between `n * i64::MIN` and
/// `n * i64::MAX`.
pub proof fn lemma_total_bounds(s: Seq<Entry>)
    ensures
        s.len() * i64::MIN <= total(s) <= s.len() * i64::MAX,
    decreases s.len(),
{
    if s.len() > 0 {
        lemma_total_bounds(s.drop_last());
        assert((s.len() - 1) * i64::MIN + i64::MIN == s.len() * i64::MIN) by (nonlinear_arith);
        assert((s.len() - 1) * i64::MAX + i64::MAX == s.len() * i64::MAX) by (nonlinear_arith);
    }
}

/// Dropping the first entry lowers the sum by its value.
pub proof fn lemma_total_drop_first(s: Seq<Entry>)
    requires
        s.len() > 0,
    ensures
        total(s.drop_first()) == total(s) - s[0].1,
    decreases s.len(),
{
    if s.len() == 1 {
        assert(total(s.drop_first()) == 0);
        assert(total(s.drop_last()) == 0);
        assert(s.last() == s[0]);
    } else {
        lemma_total_drop_first(s.drop_last());
        assert(s.drop_first().drop_last() =~= s.drop_last().drop_first());
        assert(s.drop_first().last() == s.last());
        assert(s.drop_last()[0] == s[0]);
    }
}

/// The sum of at most 2^64 64-bit values fits in 128 bits.
pub proof fn lemma_total_fits(s: Seq<Entry>)
    requires
        s.len() <= 0x1_0000_0000_0000_0000,
    ensures
        i128::MIN <= total(s) <= i128::MAX,
{
    lemma_total_bounds(s);
    let n = s.len() as int;
    assert(i128::MIN <= n * i64::MIN && n * i64::MAX <= i128::MAX) by (nonlinear_arith)
        requires
            0 <= n <= 0x1_0000_0000_0000_0000,
    ;
}

/// The mean of 64-bit values is a 64-bit value.
pub proof fn lemma_mean_fits(s: Seq<Entry>)
    requires
        s.len() > 0,
    ensures
        i64::MIN <= total(s) / (s.len() as int) <= i64::MAX,
{
    lemma_total_bounds(s);
    let n = s.len() as int;
    let t = total(s);
    assert(i64::MIN <= t / n <= i64::MAX) by (nonlinear_arith)
        requires
            n > 0,
            n * i64::MIN <= t <= n * i64::MAX,
    ;
}

/// Pushing all of `pushes` into an empty count window of `n` bars retains
/// exactly the last `n` of them.
pub proof fn lemma_count_window_retains_last(pushes: Seq<Entry>, n: usize)
    ensures
        after_pushes(pushes, Window::Bars(n)) == keep_last(pushes, n as int),
    decreases pushes.len(),
{
    if pushes.len() > 0 {
        let before = pushes.drop_last();
        lemma_count_window_retains_last(before, n);
        assert(keep_last(keep_last(before, n as int).push(pushes.last()), n as int) =~= keep_last(
            pushes,
            n as int,
        ));
    } else {
        assert(keep_last(pushes, n as int) =~= Seq::<Entry>::empty());
    }
}

/// With sorted timestamps none of which lies after `current`, pruning a
/// duration window retains exactly the entries whose timestamp lies in
/// `[current - duration, current]`: every retained entry is in the window and
/// every dropped entry is outside it.
pub proof fn lemma_prune_retains_window(s: Seq<Entry>, window: Window, current: i64)
    requires
        timestamps_sorted(s),
        forall|i: int| 0 <= i < s.len() ==> s[i].0 <= current,
    ensures
        ({
            let k = expired_prefix(s, window, current) as int;
            &&& 0 <= k <= s.len()
            &&& forall|i: int| 0 <= i < k ==> !spec_in_window(window, current, #[trigger] s[i].0)
            &&& forall|i: int| k <= i < s.len() ==> spec_in_window(window, current, #[trigger] s[i].0)
        }),
    decreases s.len(),
{
    if s.len() == 0 {
    } else if spec_in_window(window, current, s[0].0) {
        assert forall|i: int| 0 <= i < s.len() implies spec_in_window(
            window,
            current,
            #[trigger] s[i].0,
        ) by {
            assert(s[0].0 <= s[i].0);
        }
    } else {
        let rest = s.drop_first();
        assert forall|i: int, j: int| 0 <= i <= j < rest.len() implies rest[i].0 <= rest[j].0 by {
            assert(rest[i] == s[i + 1] && rest[j] == s[j + 1]);
        }
        assert forall|i: int| 0 <= i < rest.len() implies rest[i].0 <= current by {
            assert(rest[i] == s[i + 1]);
        }
        lemma_prune_retains_window(rest, window, current);
        let k = expired_prefix(s, window, current) as int;
        assert forall|i: int| 0 <= i < k implies !spec_in_window(
            window,
            current,
            #[trigger] s[i].0,
        ) by {
            if i > 0 {
                assert(s[i] == rest[i - 1]);
            }
        }
        assert forall|i: int| k <= i < s.len() implies spec_in_window(
            window,
            current,
            #[trigger] s[i].0,
        ) by {
            assert(s[i] == rest[i - 1]);
        }
    }
}

} // verus!
