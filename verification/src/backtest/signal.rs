//! The output of a strategy decision.

use crate::position::order::OrderType;
use vstd::prelude::*;

verus! {

#[derive(Debug, Clone, Copy, PartialEq, Eq, Structural)]
pub enum SignalType {
    /// A binary decision, carried as the order type to place.
    Trigger(OrderType),
    /// A continuous value such as a score or a strength.
    Value(i64),
}

/// A strategy's recommendation for one ticker.
#[derive(Debug, Clone)]
pub struct Signal {
    pub ticker: String,
    pub signal_type: SignalType,
}

impl Signal {
    pub fn new_trigger(ticker: String, order_type: OrderType) -> (r: Self)
        ensures
            r == (Signal { ticker, signal_type: SignalType::Trigger(order_type) }),
    {
        Signal { ticker, signal_type: SignalType::Trigger(order_type) }
    }

    pub fn new_value(ticker: String, value: i64) -> (r: Self)
        ensures
            r == (Signal { ticker, signal_type: SignalType::Value(value) }),
    {
        Signal { ticker, signal_type: SignalType::Value(value) }
    }
}

} // verus!
