//! A held, or previously held, quantity of an instrument.

use crate::fixed::{clamp_i64, div_floor, floor_quot, saturate, SCALE};
use crate::position::side::Side;
use vstd::prelude::*;

verus! {

/// Errors that can occur during position management.
#[derive(Debug)]
pub enum PositionError {
    PositionNotFound(String),
    TickerNotFound(String),
    InvalidSize(i64),
    /// A closed position cannot be closed again.
    AlreadyClosed,
}

/// State of a position.
#[derive(Debug, Clone, Copy, PartialEq, Eq, Structural)]
pub enum PositionState {
    /// Position is open and active.
    Open,
    /// Position has been closed.
    Closed,
}

/// A position with its strings as sequences of characters.
pub struct PositionView {
    pub id: Seq<char>,
    pub ticker: Seq<char>,
    pub side: Side,
    pub size: i64,
    pub entry_price: i64,
    pub entry_timestamp: i64,
    pub exit_price: Option<i64>,
    pub exit_timestamp: Option<i64>,
    pub state: PositionState,
}

impl PositionView {
    /// Realized profit or loss; `None` while the position has no exit price.
    pub open spec fn spec_pnl(&self) -> Option<i64> {
        match self.exit_price {
            Some(exit_price) => Some(
                spec_pnl_at(self.side, self.size, self.entry_price, exit_price),
            ),
            None => None,
        }
    }

    /// This position closed at `exit_price`.
    pub open spec fn closed_at(&self, exit_price: i64, exit_timestamp: i64) -> PositionView {
        PositionView {
            exit_price: Some(exit_price),
            exit_timestamp: Some(exit_timestamp),
            state: PositionState::Closed,
            ..*self
        }
    }
}

impl View for Position {
    type V = PositionView;

    open spec fn view(&self) -> PositionView {
        PositionView {
            id: self.id@,
            ticker: self.ticker@,
            side: self.side,
            size: self.size,
            entry_price: self.entry_price,
            entry_timestamp: self.entry_timestamp,
            exit_price: self.exit_price,
            exit_timestamp: self.exit_timestamp,
            state: self.state,
        }
    }
}

/// Represents an open or closed position.
#[derive(Debug, Clone)]
pub struct Position {
    /// Unique identifier for this position.
    pub id: String,
    /// Ticker symbol.
    pub ticker: String,
    /// Position side.
    pub side: Side,
    /// Number of shares.
    pub size: i64,
    /// Entry price.
    pub entry_price: i64,
    /// Entry timestamp.
    pub entry_timestamp: i64,
    /// Exit price (None if position is still open).
    pub exit_price: Option<i64>,
    /// Exit timestamp (None if position is still open).
    pub exit_timestamp: Option<i64>,
    /// Current state.
    pub state: PositionState,
}

/// The price move in favour of a position: up for a long, down for a short.
pub open spec fn price_move(side: Side, entry_price: i64, price: i64) -> int {
    match side {
        Side::Long => price - entry_price,
        Side::Short => entry_price - price,
        Side::Flat => 0,
    }
}

/// Profit or loss of `size` shares entered at `entry_price` and valued at
/// `price`: the favourable price move times the size, saturating.
pub open spec fn spec_pnl_at(side: Side, size: i64, entry_price: i64, price: i64) -> i64 {
    clamp_i64(price_move(side, entry_price, price) * size)
}

/// The favourable price move as a percentage of the entry price, rounded
/// down and saturating.
pub open spec fn spec_pnl_percent_at(side: Side, entry_price: i64, price: i64) -> i64
    recommends
        entry_price != 0,
{
    clamp_i64(floor_quot(price_move(side, entry_price, price) * 100 * SCALE, entry_price as int))
}

impl Position {
    /// Realized profit or loss; `None` while the position has no exit price.
    pub open spec fn spec_pnl(&self) -> Option<i64> {
        match self.exit_price {
            Some(exit_price) => Some(
                spec_pnl_at(self.side, self.size, self.entry_price, exit_price),
            ),
            None => None,
        }
    }

    /// Create a new, open position.
    pub fn new(
        id: String,
        ticker: String,
        side: Side,
        size: i64,
        entry_price: i64,
        entry_timestamp: i64,
    ) -> (r: Self)
        ensures
            r == (Position {
                id,
                ticker,
                side,
                size,
                entry_price,
                entry_timestamp,
                exit_price: None,
                exit_timestamp: None,
                state: PositionState::Open,
            }),
    {
        Position {
            id,
            ticker,
            side,
            size,
            entry_price,
            entry_timestamp,
            exit_price: None,
            exit_timestamp: None,
            state: PositionState::Open,
        }
    }

    /// A copy of this position.
    pub fn duplicate(&self) -> (r: Self)
        ensures
            r == *self,
    {
        Position {
            id: self.id.clone(),
            ticker: self.ticker.clone(),
            side: self.side,
            size: self.size,
            entry_price: self.entry_price,
            entry_timestamp: self.entry_timestamp,
            exit_price: self.exit_price,
            exit_timestamp: self.exit_timestamp,
            state: self.state,
        }
    }

    /// Close the position. Closing twice is an error and changes nothing.
    pub fn close(&mut self, exit_price: i64, exit_timestamp: i64) -> (r: Result<(), PositionError>)
        ensures
            old(self).state == PositionState::Closed ==> (r matches Err(
                PositionError::AlreadyClosed,
            )) && *final(self) == *old(self),
            old(self).state == PositionState::Open ==> r.is_ok() && *final(self) == (Position {
                exit_price: Some(exit_price),
                exit_timestamp: Some(exit_timestamp),
                state: PositionState::Closed,
                ..*old(self)
            }),
    {
        if self.state == PositionState::Closed {
            return Err(PositionError::AlreadyClosed);
        }
        self.exit_price = Some(exit_price);
        self.exit_timestamp = Some(exit_timestamp);
        self.state = PositionState::Closed;
        Ok(())
    }

    /// The favourable price move from the entry price to `price`.
    fn price_diff(&self, price: i64) -> (r: i128)
        ensures
            r == price_move(self.side, self.entry_price, price),
    {
        match self.side {
            Side::Long => price as i128 - self.entry_price as i128,
            Side::Short => self.entry_price as i128 - price as i128,
            Side::Flat => 0,
        }
    }

    /// Profit or loss of the position valued at `price`.
    fn pnl_at(&self, price: i64) -> (r: i64)
        ensures
            r == spec_pnl_at(self.side, self.size, self.entry_price, price),
    {
        let diff: i128 = self.price_diff(price);
        assert(i128::MIN <= diff * self.size <= i128::MAX) by (nonlinear_arith)
            requires
                -0xffff_ffff_ffff_ffff <= diff <= 0xffff_ffff_ffff_ffff,
                -0x8000_0000_0000_0000 <= self.size <= 0x7fff_ffff_ffff_ffff,
        ;
        saturate(diff * self.size as i128)
    }

    /// Calculate profit/loss for this position.
    pub fn pnl(&self) -> (r: Option<i64>)
        ensures
            r == self.spec_pnl(),
    {
        match self.exit_price {
            Some(exit_price) => Some(self.pnl_at(exit_price)),
            None => None,
        }
    }

    /// Calculate profit/loss as a percentage of the entry price; `None`
    /// while the position is open, and when the entry price is zero.
    pub fn pnl_percent(&self) -> (r: Option<i64>)
        ensures
            r == (match self.exit_price {
                Some(exit_price) => if self.entry_price == 0 {
                    None
                } else {
                    Some(spec_pnl_percent_at(self.side, self.entry_price, exit_price))
                },
                None => None,
            }),
    {
        match self.exit_price {
            Some(exit_price) => {
                if self.entry_price == 0 {
                    None
                } else {
                    let diff: i128 = self.price_diff(exit_price);
                    assert(-0xffff_ffff_ffff_ffff * 100_000_000 <= diff * 100 * SCALE
                        <= 0xffff_ffff_ffff_ffff * 100_000_000) by (nonlinear_arith)
                        requires
                            -0xffff_ffff_ffff_ffff <= diff <= 0xffff_ffff_ffff_ffff,
                            SCALE == 1_000_000,
                    ;
                    let scaled: i128 = diff * 100 * SCALE as i128;
                    if self.entry_price > 0 {
                        Some(saturate(div_floor(scaled, self.entry_price as i128)))
                    } else {
                        Some(saturate(div_floor(-scaled, -(self.entry_price as i128))))
                    }
                }
            },
            None => None,
        }
    }

    /// Get unrealized P&L based on current price.
    pub fn unrealized_pnl(&self, current_price: i64) -> (r: i64)
        ensures
            r == spec_pnl_at(self.side, self.size, self.entry_price, current_price),
    {
        self.pnl_at(current_price)
    }
}

/// A position closed at its entry price has no profit and no loss.
pub proof fn lemma_round_trip_pnl_is_zero(position: Position, exit_timestamp: i64)
    requires
        position.state == PositionState::Open,
    ensures
        ({
            let closed = Position {
                exit_price: Some(position.entry_price),
                exit_timestamp: Some(exit_timestamp),
                state: PositionState::Closed,
                ..position
            };
            closed.spec_pnl() == Some(0i64)
        }),
{
    let d = price_move(position.side, position.entry_price, position.entry_price);
    assert(d == 0);
    assert(d * position.size == 0) by (nonlinear_arith)
        requires
            d == 0,
    ;
}

} // verus!
