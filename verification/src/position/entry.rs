//! Entry rules: conditions that must all hold before a position is opened.

use crate::events::event::{indicators_wf, Event};
use crate::indicators::indicator::Indicator;
use crate::indicators::window::Window;
use crate::position::condition::{Condition, Conditionable};
use crate::position::order::{OrderDistance, OrderType};
use crate::position::side::Side;
use crate::position::sizing::SizingStrategy;
use crate::types::ohlcv::Row;
use vstd::prelude::*;

verus! {

/// How a position is left: when `condition` holds, or unconditionally.
pub struct ExitStrategy<L: Conditionable, R: Conditionable> {
    pub condition: Option<Condition<L, R>>,
    pub size: SizingStrategy,
    pub order: OrderType,
}

/// How a position is entered, with the ways to leave it.
pub struct Entry<L: Conditionable, R: Conditionable> {
    pub condition: Condition<L, R>,
    pub order: OrderType,
    pub size: SizingStrategy,
    pub exit: Vec<ExitStrategy<L, R>>,
}

/// A named condition with a sizing rule.
pub struct Strategy<L: Conditionable, R: Conditionable> {
    pub name: String,
    pub _condition: Condition<L, R>,
    pub sizing: SizingStrategy,
}

/// An entry rule: a position of `side` is entered when all `conditions`
/// trigger on the same bar.
pub struct EntryStrategy<E: Event> {
    pub name: String,
    pub conditions: Vec<E>,
    pub sizing: SizingStrategy,
    pub side: Side,
    pub stop_loss: Option<OrderDistance>,
    pub take_profit: Option<OrderDistance>,
    pub max_time: Option<Window>,
}

/// The number of leading conditions that trigger on the bar.
pub open spec fn triggered_prefix<E: Event>(
    conditions: Seq<E>,
    indicators: Seq<Indicator>,
    row: Row,
) -> nat
    decreases conditions.len(),
{
    if conditions.len() == 0 || !conditions[0].spec_triggered(indicators, row) {
        0
    } else {
        1 + triggered_prefix(conditions.drop_first(), indicators, row)
    }
}

/// No more conditions trigger than there are.
pub proof fn lemma_triggered_prefix_bound<E: Event>(
    conditions: Seq<E>,
    indicators: Seq<Indicator>,
    row: Row,
)
    ensures
        triggered_prefix(conditions, indicators, row) <= conditions.len(),
    decreases conditions.len(),
{
    if conditions.len() > 0 && conditions[0].spec_triggered(indicators, row) {
        lemma_triggered_prefix_bound(conditions.drop_first(), indicators, row);
    }
}

impl<E: Event> EntryStrategy<E> {
    /// Create a new entry strategy without conditions.
    pub fn new(name: String, side: Side, sizing: SizingStrategy) -> (r: Self)
        ensures
            r.name == name,
            r.conditions@.len() == 0,
            r.sizing == sizing,
            r.side == side,
            r.stop_loss.is_none(),
            r.take_profit.is_none(),
            r.max_time.is_none(),
    {
        EntryStrategy {
            name,
            conditions: Vec::new(),
            sizing,
            side,
            stop_loss: None,
            take_profit: None,
            max_time: None,
        }
    }

    /// Add an entry condition.
    pub fn add_condition(&mut self, condition: E)
        ensures
            final(self).conditions@ == old(self).conditions@.push(condition),
            final(self).name == old(self).name,
            final(self).sizing == old(self).sizing,
            final(self).side == old(self).side,
            final(self).stop_loss == old(self).stop_loss,
            final(self).take_profit == old(self).take_profit,
            final(self).max_time == old(self).max_time,
    {
        self.conditions.push(condition);
    }

    /// Checks the conditions in order, up to the first that does not
    /// trigger. Entry is called for when there is a condition and all
    /// conditions trigger. The conditions that were checked take the bar;
    /// the others stay as they were.
    #[verifier::rlimit(50)]
    pub fn check_entry(&mut self, indicators: &[Indicator], row: &Row) -> (r: bool)
        requires
            indicators_wf(indicators@),
        ensures
            r == (old(self).conditions@.len() > 0 && triggered_prefix(
                old(self).conditions@,
                indicators@,
                *row,
            ) == old(self).conditions@.len()),
            final(self).conditions@.len() == old(self).conditions@.len(),
            forall|i: int|
                0 <= i < old(self).conditions@.len() ==> #[trigger] final(self).conditions@[i]
                    == (if i <= triggered_prefix(old(self).conditions@, indicators@, *row) {
                    old(self).conditions@[i].spec_after(indicators@, *row)
                } else {
                    old(self).conditions@[i]
                }),
            final(self).name == old(self).name,
            final(self).sizing == old(self).sizing,
            final(self).side == old(self).side,
    {
        let n: usize = self.conditions.len();
        if n == 0 {
            return false;
        }
        let ghost start = self.conditions@;
        let mut i: usize = 0;
        let mut all: bool = true;
        assert(start.skip(0) =~= start);
        while i < n && all
            invariant
                n == self.conditions@.len(),
                n == start.len(),
                i <= n,
                indicators_wf(indicators@),
                self.name == old(self).name,
                self.sizing == old(self).sizing,
                self.side == old(self).side,
                forall|k: int| i <= k < n ==> #[trigger] self.conditions@[k] == start[k],
                forall|k: int|
                    0 <= k < i ==> #[trigger] self.conditions@[k] == start[k].spec_after(
                        indicators@,
                        *row,
                    ),
                all ==> triggered_prefix(start, indicators@, *row) == i + triggered_prefix(
                    start.skip(i as int),
                    indicators@,
                    *row,
                ),
                !all ==> i >= 1 && triggered_prefix(start, indicators@, *row) == i - 1,
            decreases n - i,
        {
            let ghost before = self.conditions@;
            proof {
                assert(start.skip(i as int)[0] == start[i as int]);
                assert(start.skip(i as int).drop_first() =~= start.skip(i + 1));
            }
            let triggered: bool = self.conditions[i].check(indicators, row);
            proof {
                assert forall|k: int| 0 <= k < n && k != i implies self.conditions@[k]
                    == before[k] by {}
            }
            if !triggered {
                all = false;
            }
            i = i + 1;
        }
        proof {
            lemma_triggered_prefix_bound(start, indicators@, *row);
            if all {
                assert(start.skip(n as int).len() == 0);
            }
        }
        all
    }

    /// The number of shares to enter with at the close of `row`.
    pub fn calculate_size(&self, row: &Row, account_value: i64) -> (r: i64)
        ensures
            r == self.sizing.spec_calculate(row.close, account_value),
    {
        self.sizing.calculate(row.close, account_value, None)
    }
}

} // verus!
