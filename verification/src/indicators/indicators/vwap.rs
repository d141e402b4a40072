//! The volume-weighted average price.

use super::spec_feed;
use crate::fixed::{clamp_i64, div_floor, floor_quot, fx_mul_int, saturate};
use crate::indicators::fields::PriceField;
use crate::indicators::trackers::{lemma_total_bounds, total, Entry, SumTracker};
use crate::indicators::window::Window;
use crate::types::ohlcv::Row;
use vstd::prelude::*;

verus! {

/// The sum of price times volume over the sum of volume, rounded down;
/// `None` when the volumes sum to zero.
pub open spec fn spec_vwap(price_volume: Seq<Entry>, volume: Seq<Entry>) -> Option<i64> {
    if total(volume) == 0 {
        None
    } else {
        Some(clamp_i64(floor_quot(total(price_volume), total(volume))))
    }
}

/// Volume-weighted average price over a window.
pub struct VWAP {
    /// Price times volume of each bar.
    pv_tracker: SumTracker,
    /// Volume of each bar, in shares.
    volume_tracker: SumTracker,
    price_field: PriceField,
}

impl VWAP {
    /// The retained products of price and volume.
    pub closed spec fn spec_price_volume(&self) -> Seq<Entry> {
        self.pv_tracker@
    }

    /// The retained volumes.
    pub closed spec fn spec_volume(&self) -> Seq<Entry> {
        self.volume_tracker@
    }

    pub closed spec fn spec_window(&self) -> Window {
        self.pv_tracker.spec_window()
    }

    pub closed spec fn spec_field(&self) -> PriceField {
        self.price_field
    }

    pub closed spec fn wf(&self) -> bool {
        &&& self.pv_tracker.wf()
        &&& self.volume_tracker.wf()
        &&& self.pv_tracker.spec_window() == self.volume_tracker.spec_window()
    }

    /// A VWAP of `price_field`, or of the typical price if none is given.
    pub fn new(window: Window, price_field: Option<PriceField>) -> (r: Self)
        ensures
            r.wf(),
            r.spec_price_volume() == Seq::<Entry>::empty(),
            r.spec_volume() == Seq::<Entry>::empty(),
            r.spec_window() == window,
            r.spec_field() == (match price_field {
                Some(f) => f,
                None => PriceField::Typical,
            }),
    {
        let pf: PriceField = match price_field {
            Some(f) => f,
            None => PriceField::Typical,
        };
        VWAP {
            pv_tracker: SumTracker::new(window),
            volume_tracker: SumTracker::new(window),
            price_field: pf,
        }
    }

    /// A new indicator of the same price over the same window.
    pub fn fresh(&self) -> (r: Self)
        ensures
            r.wf(),
            r.spec_price_volume() == Seq::<Entry>::empty(),
            r.spec_volume() == Seq::<Entry>::empty(),
            r.spec_window() == self.spec_window(),
            r.spec_field() == self.spec_field(),
    {
        Self::new(self.pv_tracker.window(), Some(self.price_field))
    }

    /// Feeds the price times the volume of `row`, and its volume.
    pub fn update(&mut self, row: &Row)
        requires
            old(self).wf(),
        ensures
            final(self).wf(),
            final(self).spec_price_volume() == spec_feed(
                old(self).spec_price_volume(),
                old(self).spec_window(),
                (
                    row.timestamp,
                    clamp_i64(old(self).spec_field().spec_extract(*row) * row.volume),
                ),
            ),
            final(self).spec_volume() == spec_feed(
                old(self).spec_volume(),
                old(self).spec_window(),
                (row.timestamp, row.volume),
            ),
            final(self).spec_window() == old(self).spec_window(),
            final(self).spec_field() == old(self).spec_field(),
    {
        let price: i64 = self.price_field.extract(row);
        let volume: i64 = row.volume;
        self.pv_tracker.push(row.timestamp, fx_mul_int(price, volume));
        self.pv_tracker.prune(row.timestamp);
        self.volume_tracker.push(row.timestamp, volume);
        self.volume_tracker.prune(row.timestamp);
    }

    /// The volume-weighted average price; `None` while no volume is retained.
    pub fn get(&self) -> (r: Option<i64>)
        requires
            self.wf(),
        ensures
            r == spec_vwap(self.spec_price_volume(), self.spec_volume()),
    {
        let total_volume: i128 = self.volume_tracker.sum();
        if total_volume == 0 {
            None
        } else {
            let total_pv: i128 = self.pv_tracker.sum();
            let n: usize = self.pv_tracker.count();
            let m: usize = self.volume_tracker.count();
            proof {
                lemma_total_bounds(self.pv_tracker@);
                lemma_total_bounds(self.volume_tracker@);
                assert(n * i64::MIN > i128::MIN && m * i64::MIN > i128::MIN) by (nonlinear_arith)
                    requires
                        0 <= n <= 0xffff_ffff_ffff_ffff,
                        0 <= m <= 0xffff_ffff_ffff_ffff,
                ;
            }
            if total_volume > 0 {
                Some(saturate(div_floor(total_pv, total_volume)))
            } else {
                Some(saturate(div_floor(-total_pv, -total_volume)))
            }
        }
    }

    pub fn reset(&mut self)
        requires
            old(self).wf(),
        ensures
            final(self).wf(),
            final(self).spec_price_volume() == Seq::<Entry>::empty(),
            final(self).spec_volume() == Seq::<Entry>::empty(),
            final(self).spec_window() == old(self).spec_window(),
            final(self).spec_field() == old(self).spec_field(),
    {
        self.pv_tracker.clear();
        self.volume_tracker.clear();
    }

    pub fn name(&self) -> (r: &'static str)
        ensures
            r@ == "VWAP"@,
    {
        "VWAP"
    }
}

} // verus!
