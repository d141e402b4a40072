//! How many shares an opening order asks for.

use crate::backtest::signal::Signal;
use crate::fixed::{
    clamp_i64, floor_ratio, fx_div, fx_mul, fx_sub, spec_floor_ratio, spec_fx_div, spec_fx_mul,
    SCALE,
};
use vstd::prelude::*;

verus! {

/// The fixed-point number 100, by which percentages are divided.
pub const HUNDRED: i64 = 100_000_000;

/// Strategy for determining position size.
#[derive(Debug, Clone, Copy, PartialEq, Eq, Structural)]
pub enum SizingStrategy {
    /// Fixed number of shares.
    Fixed(i64),
    /// Fixed cash amount.
    FixedDollar(i64),
    /// Percentage of account value (buying power).
    PercentOfAccount(i64),
    /// Risk a percentage of the account against a stop at the given fraction
    /// of the price.
    RiskBased { risk_percent: i64, stop_distance: i64 },
    /// Sized from the signal; no rule exists yet, so this sizes to zero.
    SignalBased,
}

impl SizingStrategy {
    /// The number of shares to trade at `price` with `account_value` at hand.
    pub open spec fn spec_calculate(&self, price: i64, account_value: i64) -> i64 {
        match *self {
            SizingStrategy::Fixed(shares) => shares,
            SizingStrategy::FixedDollar(amount) => spec_floor_ratio(amount, price),
            SizingStrategy::PercentOfAccount(pct) => spec_floor_ratio(
                spec_fx_mul(account_value, spec_fx_div(pct, HUNDRED)),
                price,
            ),
            SizingStrategy::RiskBased { risk_percent, stop_distance } => spec_floor_ratio(
                spec_fx_mul(account_value, spec_fx_div(risk_percent, HUNDRED)),
                spec_fx_mul(price, clamp_i64(SCALE - stop_distance)),
            ),
            SizingStrategy::SignalBased => 0,
        }
    }

    /// Calculate the number of shares to trade.
    pub fn calculate(&self, price: i64, account_value: i64, _signal: Option<&Signal>) -> (r: i64)
        ensures
            r == self.spec_calculate(price, account_value),
    {
        match self {
            SizingStrategy::Fixed(shares) => *shares,
            SizingStrategy::FixedDollar(amount) => floor_ratio(*amount, price),
            SizingStrategy::PercentOfAccount(pct) => {
                let fraction: i64 = match fx_div(*pct, HUNDRED) {
                    Some(f) => f,
                    None => 0,
                };
                let amount: i64 = fx_mul(account_value, fraction);
                floor_ratio(amount, price)
            },
            SizingStrategy::RiskBased { risk_percent, stop_distance } => {
                let fraction: i64 = match fx_div(*risk_percent, HUNDRED) {
                    Some(f) => f,
                    None => 0,
                };
                let risk_amount: i64 = fx_mul(account_value, fraction);
                let per_share: i64 = fx_mul(price, fx_sub(SCALE, *stop_distance));
                floor_ratio(risk_amount, per_share)
            },
            SizingStrategy::SignalBased => 0,
        }
    }
}

} // verus!
