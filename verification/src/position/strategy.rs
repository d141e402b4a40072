//! A condition together with what to do when it holds.

use crate::equity::master::StrategyRunner;
use crate::position::condition::{Condition, Conditionable};
use crate::position::order::OrderType;
use crate::position::sizing::SizingStrategy;
use crate::types::ohlcv::Row;
use vstd::prelude::*;

verus! {

/// Whether a trade opened or closed a position.
#[derive(Debug, Clone, Copy, PartialEq, Eq, Structural)]
pub enum Action {
    Entry,
    Exit,
}

/// A rule of a strategy: when `condition` holds, place `order`, sized by
/// `sizing`, to enter or to exit.
pub struct PositionStrategy<L: Conditionable, R: Conditionable> {
    pub condition: Condition<L, R>,
    pub sizing: SizingStrategy,
    pub order: OrderType,
    pub action: Action,
    pub name: String,
}

impl<L: Conditionable, R: Conditionable> PositionStrategy<L, R> {
    /// `next` is this rule after the operands of its condition have taken
    /// `row`.
    pub open spec fn spec_fed(&self, next: &Self, row: Row) -> bool {
        &&& self.condition.spec_fed(&next.condition, row)
        &&& next.sizing == self.sizing
        &&& next.order == self.order
        &&& next.action == self.action
        &&& next.name == self.name
    }

    /// `other` is this rule with operands that have seen no bar and a
    /// condition that remembers no check.
    pub open spec fn spec_cleared(&self, other: &Self) -> bool {
        &&& self.condition.left.spec_cleared(&other.condition.left)
        &&& self.condition.right.spec_cleared(&other.condition.right)
        &&& other.condition.left_val_prev.is_none()
        &&& other.condition.right_val_prev.is_none()
        &&& other.sizing == self.sizing
        &&& other.order == self.order
        &&& other.action == self.action
        &&& other.name == self.name
    }

    /// A rule named `name`, or "Untitled" without a name.
    pub fn new(
        condition: Condition<L, R>,
        sizing: SizingStrategy,
        order: OrderType,
        action: Action,
        name: Option<String>,
    ) -> (r: Self)
        ensures
            r.condition == condition,
            r.sizing == sizing,
            r.order == order,
            r.action == action,
            r.name@ == (match name {
                Some(n) => n@,
                None => "Untitled"@,
            }),
    {
        let name: String = match name {
            Some(n) => n,
            None => "Untitled".to_owned(),
        };
        PositionStrategy { condition, sizing, order, action, name }
    }

    /// Feeds the bar to the operands of the condition.
    pub fn update(&mut self, row: &Row)
        requires
            old(self).condition.wf(),
            old(self).condition.spec_accepts(row.timestamp),
        ensures
            final(self).condition.wf(),
            old(self).spec_fed(final(self), *row),
            forall|t: i64| t >= row.timestamp ==> #[trigger] final(self).condition.spec_accepts(t),
    {
        self.condition.update(row);
    }
}

impl<L: Conditionable, R: Conditionable> StrategyRunner for PositionStrategy<L, R> {
    open spec fn wf(&self) -> bool {
        self.condition.wf()
    }

    open spec fn spec_accepts(&self, timestamp: i64) -> bool {
        self.condition.spec_accepts(timestamp)
    }

    open spec fn spec_fed(&self, next: &Self, row: Row) -> bool {
        PositionStrategy::spec_fed(self, next, row)
    }

    open spec fn spec_cleared(&self, other: &Self) -> bool {
        PositionStrategy::spec_cleared(self, other)
    }

    fn update(&mut self, row: &Row) {
        PositionStrategy::update(self, row);
    }

    fn fresh(&self) -> (r: Self) {
        PositionStrategy {
            condition: Condition::new(self.condition.left.fresh(), self.condition.right.fresh()),
            sizing: self.sizing,
            order: self.order,
            action: self.action,
            name: self.name.clone(),
        }
    }
}

} // verus!
