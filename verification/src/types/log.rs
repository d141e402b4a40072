//! The record of one portfolio change.

use crate::position::position::{Position, PositionView};
use crate::position::strategy::Action;
use vstd::prelude::*;

verus! {

/// The value of each named indicator at one moment.
pub type IndicatorValues = Vec<(String, i64)>;

/// Named values with the names as sequences of characters.
pub open spec fn values_view(values: Seq<(String, i64)>) -> Seq<(Seq<char>, i64)> {
    Seq::new(values.len(), |i: int| (values[i].0@, values[i].1))
}

/// A copy of named values.
pub fn clone_values(values: &IndicatorValues) -> (r: IndicatorValues)
    ensures
        values_view(r@) == values_view(values@),
{
    let mut out: Vec<(String, i64)> = Vec::new();
    let n: usize = values.len();
    let mut i: usize = 0;
    while i < n
        invariant
            n == values@.len(),
            i <= n,
            out@.len() == i,
            forall|k: int| 0 <= k < i ==> out@[k].0@ == values@[k].0@ && out@[k].1 == values@[k].1,
        decreases n - i,
    {
        let name: String = values[i].0.clone();
        let value: i64 = values[i].1;
        out.push((name, value));
        i = i + 1;
    }
    assert(values_view(out@) =~= values_view(values@));
    out
}

/// A trade log with its strings as sequences of characters.
pub struct TradeLogView {
    pub position: PositionView,
    pub action: Action,
    pub strategy_name: Seq<char>,
    pub indicator_values: Seq<(Seq<char>, i64)>,
    pub pnl: i64,
    pub condition_name: Seq<char>,
}

/// A snapshot of a position at the moment of a trade, with what triggered
/// the trade.
pub struct TradeLog {
    pub position: Position,
    pub action: Action,
    pub strategy_name: String,
    pub indicator_values: IndicatorValues,
    /// The realized profit or loss of the position, zero while it is open.
    pub pnl: i64,
    /// The name of the condition that triggered the action.
    pub condition_name: String,
}

impl View for TradeLog {
    type V = TradeLogView;

    open spec fn view(&self) -> TradeLogView {
        TradeLogView {
            position: self.position@,
            action: self.action,
            strategy_name: self.strategy_name@,
            indicator_values: values_view(self.indicator_values@),
            pnl: self.pnl,
            condition_name: self.condition_name@,
        }
    }
}

impl TradeLog {
    /// The log of `action` on `position`.
    pub open spec fn spec_new(
        position: PositionView,
        action: Action,
        strategy_name: Seq<char>,
        condition_name: Seq<char>,
        indicator_values: Seq<(Seq<char>, i64)>,
    ) -> TradeLogView {
        TradeLogView {
            position,
            action,
            strategy_name,
            indicator_values,
            pnl: match position.spec_pnl() {
                Some(pnl) => pnl,
                None => 0,
            },
            condition_name,
        }
    }

    pub fn new(
        position: Position,
        action: Action,
        strategy_name: String,
        condition_name: String,
        indicator_values: IndicatorValues,
    ) -> (r: Self)
        ensures
            r@ == Self::spec_new(
                position@,
                action,
                strategy_name@,
                condition_name@,
                values_view(indicator_values@),
            ),
    {
        let pnl: i64 = match position.pnl() {
            Some(pnl) => pnl,
            None => 0,
        };
        TradeLog { position, action, strategy_name, indicator_values, pnl, condition_name }
    }
}

} // verus!
