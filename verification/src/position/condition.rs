//! Conditions over two operands: constants, fields of the bar, indicators.

use crate::events::cross::{spec_crossed, CrossDirection};
use crate::indicators::fields::CommonField;
use crate::indicators::indicator::Indicator;
use crate::types::ohlcv::Row;
use vstd::prelude::*;

verus! {

/// The bar behind an optional reference.
pub open spec fn row_of(row: Option<&Row>) -> Option<Row> {
    match row {
        Some(r) => Some(*r),
        None => None,
    }
}

/// What can stand on either side of a condition.
pub trait Conditionable: Sized {
    /// The operand's internal state is consistent.
    spec fn wf(&self) -> bool;

    /// Whether the operand takes a bar stamped `timestamp`.
    spec fn spec_accepts(&self, timestamp: i64) -> bool;

    /// The value of the operand at a bar; `None` while it has none.
    spec fn spec_evaluate(&self, row: Option<Row>) -> Option<i64>;

    /// `next` is this operand after it has taken `row`.
    spec fn spec_fed(&self, next: &Self, row: Row) -> bool;

    /// `other` is an operand of the same configuration that has seen no bar.
    spec fn spec_cleared(&self, other: &Self) -> bool;

    /// The value of the operand at a bar.
    fn evaluate(&self, row: Option<&Row>) -> (r: Option<i64>)
        requires
            self.wf(),
        ensures
            r == self.spec_evaluate(row_of(row)),
    ;

    /// Takes a bar. Afterwards the operand takes every bar that is not
    /// stamped earlier than this one.
    fn update(&mut self, row: &Row)
        requires
            old(self).wf(),
            old(self).spec_accepts(row.timestamp),
        ensures
            final(self).wf(),
            old(self).spec_fed(final(self), *row),
            forall|t: i64| t >= row.timestamp ==> #[trigger] final(self).spec_accepts(t),
    ;

    /// An operand of the same configuration that has seen no bar. It takes
    /// any bar.
    fn fresh(&self) -> (r: Self)
        requires
            self.wf(),
        ensures
            r.wf(),
            self.spec_cleared(&r),
            forall|t: i64| #[trigger] r.spec_accepts(t),
    ;
}

/// A constant.
impl Conditionable for i64 {
    open spec fn wf(&self) -> bool {
        true
    }

    open spec fn spec_accepts(&self, timestamp: i64) -> bool {
        true
    }

    open spec fn spec_evaluate(&self, row: Option<Row>) -> Option<i64> {
        Some(*self)
    }

    open spec fn spec_fed(&self, next: &Self, row: Row) -> bool {
        *next == *self
    }

    open spec fn spec_cleared(&self, other: &Self) -> bool {
        *other == *self
    }

    fn evaluate(&self, _row: Option<&Row>) -> (r: Option<i64>) {
        Some(*self)
    }

    fn update(&mut self, _row: &Row)
        ensures
            *final(self) == *old(self),
    {
    }

    fn fresh(&self) -> (r: Self)
        ensures
            r == *self,
    {
        *self
    }
}

/// A field of the current bar.
impl Conditionable for CommonField {
    open spec fn wf(&self) -> bool {
        true
    }

    open spec fn spec_accepts(&self, timestamp: i64) -> bool {
        true
    }

    open spec fn spec_evaluate(&self, row: Option<Row>) -> Option<i64> {
        match row {
            Some(r) => Some(self.spec_extract(r)),
            None => None,
        }
    }

    open spec fn spec_fed(&self, next: &Self, row: Row) -> bool {
        *next == *self
    }

    open spec fn spec_cleared(&self, other: &Self) -> bool {
        *other == *self
    }

    fn evaluate(&self, row: Option<&Row>) -> (r: Option<i64>) {
        match row {
            Some(r) => Some(self.extract(r)),
            None => None,
        }
    }

    fn update(&mut self, _row: &Row)
        ensures
            *final(self) == *old(self),
    {
    }

    fn fresh(&self) -> (r: Self)
        ensures
            r == *self,
    {
        *self
    }
}

/// An indicator, which the condition owns and feeds.
impl Conditionable for Indicator {
    open spec fn wf(&self) -> bool {
        Indicator::wf(self)
    }

    open spec fn spec_accepts(&self, timestamp: i64) -> bool {
        Indicator::spec_accepts(self, timestamp)
    }

    open spec fn spec_evaluate(&self, row: Option<Row>) -> Option<i64> {
        self.spec_value()
    }

    open spec fn spec_fed(&self, next: &Self, row: Row) -> bool {
        Indicator::spec_fed(self, next, row)
    }

    open spec fn spec_cleared(&self, other: &Self) -> bool {
        Indicator::spec_cleared(self, other)
    }

    fn evaluate(&self, _row: Option<&Row>) -> (r: Option<i64>) {
        self.get()
    }

    fn update(&mut self, row: &Row) {
        Indicator::update(self, row);
        proof {
            assert(self.spec_accepts_from(row.timestamp));
        }
    }

    fn fresh(&self) -> (r: Self) {
        Indicator::fresh(self)
    }
}

/// A condition over two operands that remembers their values at the previous
/// check, to detect crossings.
pub struct Condition<L: Conditionable, R: Conditionable> {
    pub left: L,
    pub left_val_prev: Option<i64>,
    pub right: R,
    pub right_val_prev: Option<i64>,
}

impl<L: Conditionable, R: Conditionable> Condition<L, R> {
    pub open spec fn wf(&self) -> bool {
        self.left.wf() && self.right.wf()
    }

    /// Whether both operands take a bar stamped `timestamp`.
    pub open spec fn spec_accepts(&self, timestamp: i64) -> bool {
        self.left.spec_accepts(timestamp) && self.right.spec_accepts(timestamp)
    }

    /// `next` is this condition after both operands have taken `row`; what it
    /// remembers of the previous check is untouched.
    pub open spec fn spec_fed(&self, next: &Self, row: Row) -> bool {
        &&& self.left.spec_fed(&next.left, row)
        &&& self.right.spec_fed(&next.right, row)
        &&& next.left_val_prev == self.left_val_prev
        &&& next.right_val_prev == self.right_val_prev
    }

    /// Whether a check at `row` reports a cross in `direction`.
    pub open spec fn spec_cross(&self, direction: CrossDirection, row: Row) -> bool {
        spec_crossed(
            direction,
            self.left_val_prev,
            self.right_val_prev,
            self.left.spec_evaluate(Some(row)),
            self.right.spec_evaluate(Some(row)),
        )
    }

    pub fn new(left: L, right: R) -> (r: Self)
        ensures
            r.left == left,
            r.right == right,
            r.left_val_prev.is_none(),
            r.right_val_prev.is_none(),
    {
        Condition { left, left_val_prev: None, right, right_val_prev: None }
    }

    /// Feeds the bar to both operands.
    pub fn update(&mut self, row: &Row)
        requires
            old(self).wf(),
            old(self).spec_accepts(row.timestamp),
        ensures
            final(self).wf(),
            old(self).spec_fed(final(self), *row),
            forall|t: i64| t >= row.timestamp ==> #[trigger] final(self).spec_accepts(t),
    {
        self.left.update(row);
        self.right.update(row);
    }

    /// Whether the left operand was at or below the right one at the previous
    /// check and is above it now. The current values are remembered for the
    /// next check.
    pub fn cross_above(&mut self, row: &Row) -> (r: bool)
        requires
            old(self).wf(),
        ensures
            r == old(self).spec_cross(CrossDirection::Above, *row),
            final(self).left == old(self).left,
            final(self).right == old(self).right,
            final(self).left_val_prev == old(self).left.spec_evaluate(Some(*row)),
            final(self).right_val_prev == old(self).right.spec_evaluate(Some(*row)),
    {
        let l_curr: Option<i64> = self.left.evaluate(Some(row));
        let r_curr: Option<i64> = self.right.evaluate(Some(row));
        let res: bool = match (l_curr, r_curr, self.left_val_prev, self.right_val_prev) {
            (Some(lc), Some(rc), Some(lp), Some(rp)) => lc > rc && lp <= rp,
            _ => false,
        };
        self.left_val_prev = l_curr;
        self.right_val_prev = r_curr;
        res
    }

    /// Whether the left operand was at or above the right one at the previous
    /// check and is below it now. The current values are remembered for the
    /// next check.
    pub fn cross_below(&mut self, row: &Row) -> (r: bool)
        requires
            old(self).wf(),
        ensures
            r == old(self).spec_cross(CrossDirection::Below, *row),
            final(self).left == old(self).left,
            final(self).right == old(self).right,
            final(self).left_val_prev == old(self).left.spec_evaluate(Some(*row)),
            final(self).right_val_prev == old(self).right.spec_evaluate(Some(*row)),
    {
        let l_curr: Option<i64> = self.left.evaluate(Some(row));
        let r_curr: Option<i64> = self.right.evaluate(Some(row));
        let res: bool = match (l_curr, r_curr, self.left_val_prev, self.right_val_prev) {
            (Some(lc), Some(rc), Some(lp), Some(rp)) => lc < rc && lp >= rp,
            _ => false,
        };
        self.left_val_prev = l_curr;
        self.right_val_prev = r_curr;
        res
    }
}

} // verus!
