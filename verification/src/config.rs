//! Configuration that the core consumes: session boundaries, the replacement
//! policy and the sizing rule. The value is threaded through construction;
//! nothing here is process-wide.

use crate::indicators::time::TimeOfDay;
use crate::indicators::window::Window;
use crate::position::sizing::SizingStrategy;
use vstd::prelude::*;

verus! {

/// Configuration for strategy testing.
#[derive(Debug, Clone, Copy, PartialEq, Eq, Structural)]
pub struct Config {
    /// The cash a portfolio starts with.
    pub starting_buying_power: i64,
    /// Market hours and trading sessions.
    pub market_hours: MarketHours,
    /// Maximum time in position.
    pub max_position_time: Option<Window>,
    /// Slippage as a fraction of the price.
    pub slippage: i64,
    /// What happens to an order that cannot be afforded.
    pub replacement_strategy: ReplacementStrategy,
    /// How opening orders are sized.
    pub sizing_strategy: SizingStrategy,
}

/// Market hours and trading sessions.
#[derive(Debug, Clone, Copy, PartialEq, Eq, Structural)]
pub struct MarketHours {
    /// Include pre-market hours.
    pub include_premarket: bool,
    /// Include post-market hours.
    pub include_postmarket: bool,
    /// Regular trading hours start time.
    pub market_open: TimeOfDay,
    /// Regular trading hours end time.
    pub market_close: TimeOfDay,
    /// Pre-market start time.
    pub premarket_open: TimeOfDay,
    /// Post-market end time.
    pub postmarket_close: TimeOfDay,
}

/// When maximum buying power is reached, what happens to the new order.
#[derive(Debug, Clone, Copy, PartialEq, Eq, Structural)]
pub enum ReplacementStrategy {
    /// Queue the order anyway; it is retried on each bar.
    Queue,
    /// Close the position with the oldest entry first.
    ReplaceOldest,
    /// Close the position with the newest entry first.
    ReplaceNewest,
    /// Rank by signal strength; no ranking rule exists, so this queues.
    ReplaceSignal,
    /// Drop the order.
    Cancel,
}

impl Config {
    /// 100000 of starting cash, the default market hours, at most 30 days in
    /// a position, 0.1% slippage, unaffordable orders cancelled and 100
    /// shares per order.
    pub open spec fn spec_default() -> Config {
        Config {
            starting_buying_power: 100_000_000_000,
            market_hours: MarketHours::spec_default(),
            max_position_time: Some(Window::Days(30)),
            slippage: 1_000,
            replacement_strategy: ReplacementStrategy::Cancel,
            sizing_strategy: SizingStrategy::Fixed(100),
        }
    }
}

impl Default for Config {
    fn default() -> (r: Self)
        ensures
            r == Config::spec_default(),
    {
        Config {
            starting_buying_power: 100_000_000_000,
            market_hours: MarketHours::default(),
            max_position_time: Some(Window::Days(30)),
            slippage: 1_000,
            replacement_strategy: ReplacementStrategy::Cancel,
            sizing_strategy: SizingStrategy::Fixed(100),
        }
    }
}

impl MarketHours {
    /// Regular hours 9:30 to 16:00, extended hours 4:00 to 20:00, both
    /// extended sessions excluded.
    pub open spec fn spec_default() -> MarketHours {
        MarketHours {
            include_premarket: false,
            include_postmarket: false,
            market_open: TimeOfDay { hour: 9, minute: 30, second: 0 },
            market_close: TimeOfDay { hour: 16, minute: 0, second: 0 },
            premarket_open: TimeOfDay { hour: 4, minute: 0, second: 0 },
            postmarket_close: TimeOfDay { hour: 20, minute: 0, second: 0 },
        }
    }

    pub open spec fn spec_earliest_valid_time(&self) -> TimeOfDay {
        if self.include_premarket {
            self.premarket_open
        } else {
            self.market_open
        }
    }

    pub open spec fn spec_latest_valid_time(&self) -> TimeOfDay {
        if self.include_postmarket {
            self.postmarket_close
        } else {
            self.market_close
        }
    }

    /// The earliest valid time for the trading session.
    pub fn earliest_valid_time(&self) -> (r: TimeOfDay)
        ensures
            r == self.spec_earliest_valid_time(),
    {
        if self.include_premarket {
            self.premarket_open
        } else {
            self.market_open
        }
    }

    /// The latest valid time for the trading session.
    pub fn latest_valid_time(&self) -> (r: TimeOfDay)
        ensures
            r == self.spec_latest_valid_time(),
    {
        if self.include_postmarket {
            self.postmarket_close
        } else {
            self.market_close
        }
    }

    /// Whether a time of day lies within the session, both ends included.
    pub fn is_valid_time(&self, time: TimeOfDay) -> (r: bool)
        ensures
            r == (self.spec_earliest_valid_time().spec_seconds() <= time.spec_seconds()
                <= self.spec_latest_valid_time().spec_seconds()),
    {
        let earliest = self.earliest_valid_time();
        let latest = self.latest_valid_time();
        time.seconds() >= earliest.seconds() && time.seconds() <= latest.seconds()
    }
}

impl Default for MarketHours {
    fn default() -> (r: Self)
        ensures
            r == MarketHours::spec_default(),
    {
        MarketHours {
            include_premarket: false,
            include_postmarket: false,
            market_open: TimeOfDay::new(9, 30, 0),
            market_close: TimeOfDay::new(16, 0, 0),
            premarket_open: TimeOfDay::new(4, 0, 0),
            postmarket_close: TimeOfDay::new(20, 0, 0),
        }
    }
}

} // verus!
