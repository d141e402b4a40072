//! Individual indicator implementations.
//!
//! Each indicator reads one value from a bar and hands it to a tracker:
//! `update` pushes the value at the bar's timestamp and prunes the window at
//! that timestamp.

pub mod acv;
pub mod adv;
pub mod high_low;
pub mod momentum;
pub mod moving_average;
pub mod rsi;
pub mod vwap;

pub use acv::ACV;
pub use adv::ADV;
pub use high_low::{HighOfPeriod, LowOfPeriod};
pub use momentum::Momentum;
pub use moving_average::MovingAverage;
pub use rsi::RSI;
pub use vwap::VWAP;

use crate::indicators::trackers::{lemma_expired_prefix_bound, spec_prune, spec_push, Entry};
use crate::indicators::window::Window;
use vstd::prelude::*;

verus! {

/// The retained entries after `entry` is pushed and the window is pruned at
/// the timestamp of the entry.
pub open spec fn spec_feed(s: Seq<Entry>, window: Window, entry: Entry) -> Seq<Entry> {
    spec_prune(spec_push(s, window, entry), window, entry.0)
}

/// The last retained entry, if there is one, is not stamped after
/// `timestamp`.
pub open spec fn latest_at_most(s: Seq<Entry>, timestamp: i64) -> bool {
    s.len() == 0 || s.last().0 <= timestamp
}

/// After an entry is fed, the last retained entry, if any is left, is that
/// entry.
pub proof fn lemma_feed_latest(s: Seq<Entry>, window: Window, entry: Entry)
    ensures
        latest_at_most(spec_feed(s, window, entry), entry.0),
        latest_at_most(spec_push(s, window, entry), entry.0),
{
    let pushed = spec_push(s, window, entry);
    if pushed.len() > 0 {
        assert(pushed.last() == entry);
    }
    let fed = spec_feed(s, window, entry);
    lemma_expired_prefix_bound(pushed, window, entry.0);
    if fed.len() > 0 {
        assert(fed.last() == pushed.last());
    }
}

} // verus!
