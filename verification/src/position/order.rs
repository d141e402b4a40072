//! Orders and the simulation of their fills against a bar.
//!
//! An order is checked against bars until it completes. It completes once:
//! either it fills, which sets its fill price and fill size, or it expires.

use crate::config::MarketHours;
use crate::fixed::{clamp_i64, div_floor, fx_add, fx_mul, fx_sub, saturate, spec_fx_mul, SCALE};
use crate::types::ohlcv::Row;
use crate::utils::time::{get_mc_timestamp, spec_apply_time};
use vstd::prelude::*;

verus! {

/// Whether an order opens or closes a position.
#[derive(Debug, Clone, Copy, PartialEq, Eq, Structural)]
pub enum OrderAction {
    /// The order is to open a position.
    Open,
    /// The order is to close a position.
    Close,
}

/// How long an order stays pending.
#[derive(Debug, Clone, Copy, PartialEq, Eq, Structural)]
pub enum OrderTimeline {
    /// Good till cancelled.
    GTC,
    /// Until the market closes on the day of submission.
    EOD,
}

#[derive(Debug, Clone, Copy, PartialEq, Eq, Structural)]
pub enum OrderError {
    /// ATR is required for ATR-based distance.
    ATRRequired,
    /// Order is already completed.
    AlreadyCompleted,
    /// Order is already filled.
    AlreadyFilled,
    /// Order is not valid.
    InvalidOrder,
}

/// Where the trigger price of an order lies.
#[derive(Debug, Clone, Copy, PartialEq, Eq, Structural)]
pub enum OrderDistance {
    /// Fixed price level.
    Fixed(i64),
    /// Percentage distance from current price.
    Percent(i64),
    /// Fixed distance from current price.
    Points(i64),
    /// ATR-based distance (multiple of ATR).
    ATR(i64),
}

/// The type of order to be placed.
#[derive(Debug, Clone, Copy, PartialEq, Eq, Structural)]
pub enum OrderType {
    MarketBuy(),
    MarketSell(),
    LimitBuy(OrderDistance),
    LimitSell(OrderDistance),
    StopMarketBuy(OrderDistance),
    /// Stop distance, then limit distance.
    StopLimitBuy(OrderDistance, OrderDistance),
    StopMarketSell(OrderDistance),
    /// Stop distance, then limit distance.
    StopLimitSell(OrderDistance, OrderDistance),
    AuctionOpen(),
    AuctionClose(),
}

/// The price used to validate an order type at construction.
pub const VALIDATION_PRICE: i64 = 100_000_000;

/// `price` moved by `pct` percent: up for a buy, down for a sell.
pub open spec fn percent_price(price: i64, pct: i64, is_buy: bool) -> i64 {
    let factor = if is_buy {
        100 * SCALE + pct
    } else {
        100 * SCALE - pct
    };
    clamp_i64((price * factor) / (100 * SCALE))
}

/// `price` moved by `offset`: up for a buy, down for a sell.
pub open spec fn offset_price(price: i64, offset: i64, is_buy: bool) -> i64 {
    if is_buy {
        clamp_i64(price + offset)
    } else {
        clamp_i64(price - offset)
    }
}

/// The larger of two prices.
pub open spec fn max_price(a: i64, b: i64) -> i64 {
    if a >= b {
        a
    } else {
        b
    }
}

/// The smaller of two prices.
pub open spec fn min_price(a: i64, b: i64) -> i64 {
    if a <= b {
        a
    } else {
        b
    }
}

impl OrderDistance {
    /// The order price for a current price and side. An ATR distance without
    /// an ATR value is an error.
    pub open spec fn spec_calculate(
        &self,
        current_price: i64,
        is_buy: bool,
        atr: Option<i64>,
    ) -> Result<i64, OrderError> {
        match *self {
            OrderDistance::Fixed(price) => Ok(price),
            OrderDistance::Percent(pct) => Ok(percent_price(current_price, pct, is_buy)),
            OrderDistance::Points(pts) => Ok(offset_price(current_price, pts, is_buy)),
            OrderDistance::ATR(multiple) => match atr {
                Some(a) => Ok(offset_price(current_price, spec_fx_mul(a, multiple), is_buy)),
                None => Err(OrderError::ATRRequired),
            },
        }
    }

    /// Calculate the order price given current price and side.
    pub fn calculate(&self, current_price: i64, order_type: OrderType, atr: Option<i64>) -> (r:
        Result<i64, OrderError>)
        ensures
            r == self.spec_calculate(current_price, order_type.spec_is_buy(), atr),
    {
        let is_buy = order_type.is_buy();
        match self {
            OrderDistance::Fixed(price) => Ok(*price),
            OrderDistance::Percent(pct) => {
                let factor: i128 = if is_buy {
                    100 * SCALE as i128 + *pct as i128
                } else {
                    100 * SCALE as i128 - *pct as i128
                };
                assert(i128::MIN <= current_price * factor <= i128::MAX) by (nonlinear_arith)
                    requires
                        -0x8000_0000_0000_0000 <= current_price <= 0x7fff_ffff_ffff_ffff,
                        -0x8000_0000_0000_0000 - 100_000_000 <= factor <= 0x8000_0000_0000_0000
                            + 100_000_000,
                ;
                let product: i128 = current_price as i128 * factor;
                Ok(saturate(div_floor(product, 100 * SCALE as i128)))
            },
            OrderDistance::Points(pts) => {
                if is_buy {
                    Ok(fx_add(current_price, *pts))
                } else {
                    Ok(fx_sub(current_price, *pts))
                }
            },
            OrderDistance::ATR(multiple) => {
                match atr {
                    Some(a) => {
                        let offset: i64 = fx_mul(a, *multiple);
                        if is_buy {
                            Ok(fx_add(current_price, offset))
                        } else {
                            Ok(fx_sub(current_price, offset))
                        }
                    },
                    None => Err(OrderError::ATRRequired),
                }
            },
        }
    }
}

impl OrderType {
    pub open spec fn spec_is_buy(&self) -> bool {
        match *self {
            OrderType::MarketBuy() => true,
            OrderType::LimitBuy(_) => true,
            OrderType::StopMarketBuy(_) => true,
            OrderType::StopLimitBuy(_, _) => true,
            _ => false,
        }
    }

    pub open spec fn spec_is_sell(&self) -> bool {
        match *self {
            OrderType::MarketSell() => true,
            OrderType::LimitSell(_) => true,
            OrderType::StopMarketSell(_) => true,
            OrderType::StopLimitSell(_, _) => true,
            _ => false,
        }
    }

    /// Whether one of the distances that this type carries is a multiple of
    /// the ATR.
    pub open spec fn spec_needs_atr(&self) -> bool {
        match *self {
            OrderType::LimitBuy(d) => d is ATR,
            OrderType::LimitSell(d) => d is ATR,
            OrderType::StopMarketBuy(d) => d is ATR,
            OrderType::StopMarketSell(d) => d is ATR,
            OrderType::StopLimitBuy(stop, limit) => stop is ATR || limit is ATR,
            OrderType::StopLimitSell(stop, limit) => stop is ATR || limit is ATR,
            _ => false,
        }
    }

    /// Whether a single distance can be priced without an ATR value.
    pub open spec fn spec_priced(distance: OrderDistance, current_price: i64, is_buy: bool) -> Result<
        (),
        OrderError,
    > {
        match distance.spec_calculate(current_price, is_buy, None) {
            Err(e) => Err(e),
            Ok(_) => Ok(()),
        }
    }

    /// Every distance that the type carries is priced at `current_price`
    /// without an ATR value, and an error in pricing is passed on: a type
    /// with an ATR distance is never valid. A stop-limit buy needs its stop
    /// at or below its limit, a stop-limit sell needs its stop at or above
    /// its limit. Market and auction orders are valid.
    pub open spec fn spec_validate(&self, current_price: i64) -> Result<(), OrderError> {
        match *self {
            OrderType::LimitBuy(distance) => Self::spec_priced(distance, current_price, true),
            OrderType::StopMarketBuy(distance) => Self::spec_priced(distance, current_price, true),
            OrderType::LimitSell(distance) => Self::spec_priced(distance, current_price, false),
            OrderType::StopMarketSell(distance) => Self::spec_priced(
                distance,
                current_price,
                false,
            ),
            OrderType::StopLimitBuy(stop_dist, limit_dist) => match stop_dist.spec_calculate(
                current_price,
                true,
                None,
            ) {
                Err(e) => Err(e),
                Ok(stop) => match limit_dist.spec_calculate(current_price, true, None) {
                    Err(e) => Err(e),
                    Ok(limit) => if stop > limit {
                        Err(OrderError::InvalidOrder)
                    } else {
                        Ok(())
                    },
                },
            },
            OrderType::StopLimitSell(stop_dist, limit_dist) => match stop_dist.spec_calculate(
                current_price,
                false,
                None,
            ) {
                Err(e) => Err(e),
                Ok(stop) => match limit_dist.spec_calculate(current_price, false, None) {
                    Err(e) => Err(e),
                    Ok(limit) => if stop < limit {
                        Err(OrderError::InvalidOrder)
                    } else {
                        Ok(())
                    },
                },
            },
            _ => Ok(()),
        }
    }

    /// The price at which an order of this type fills against `row`, if the
    /// bar makes it fill.
    ///
    /// Market orders fill at the close. A limit buy or a stop sell fills at
    /// the low once the low reaches the trigger price; a limit sell or a stop
    /// buy fills at the high once the high reaches it. A stop-limit order
    /// needs the stop and the limit to be met by the same bar, and fills at
    /// its limit, or at the end of the bar on the side of the limit if the
    /// limit lies beyond the bar.
    pub open spec fn spec_fill(&self, row: Row) -> Result<Option<i64>, OrderError> {
        match *self {
            OrderType::MarketBuy() => Ok(Some(row.close)),
            OrderType::MarketSell() => Ok(Some(row.close)),
            OrderType::LimitBuy(distance) => match distance.spec_calculate(row.close, true, None) {
                Err(e) => Err(e),
                Ok(price) => Ok(
                    if row.low <= price {
                        Some(row.low)
                    } else {
                        None
                    },
                ),
            },
            OrderType::LimitSell(distance) => match distance.spec_calculate(
                row.close,
                false,
                None,
            ) {
                Err(e) => Err(e),
                Ok(price) => Ok(
                    if row.high >= price {
                        Some(row.high)
                    } else {
                        None
                    },
                ),
            },
            OrderType::StopMarketBuy(distance) => match distance.spec_calculate(
                row.close,
                true,
                None,
            ) {
                Err(e) => Err(e),
                Ok(price) => Ok(
                    if row.high >= price {
                        Some(row.high)
                    } else {
                        None
                    },
                ),
            },
            OrderType::StopMarketSell(distance) => match distance.spec_calculate(
                row.close,
                false,
                None,
            ) {
                Err(e) => Err(e),
                Ok(price) => Ok(
                    if row.low <= price {
                        Some(row.low)
                    } else {
                        None
                    },
                ),
            },
            OrderType::StopLimitBuy(stop_distance, limit_distance) => match stop_distance.spec_calculate(
            row.close, true, None) {
                Err(e) => Err(e),
                Ok(stop_price) => match limit_distance.spec_calculate(row.close, true, None) {
                    Err(e) => Err(e),
                    Ok(limit_price) => Ok(
                        if row.high >= stop_price && row.low <= limit_price {
                            Some(min_price(row.high, limit_price))
                        } else {
                            None
                        },
                    ),
                },
            },
            OrderType::StopLimitSell(stop_distance, limit_distance) => match stop_distance.spec_calculate(
            row.close, false, None) {
                Err(e) => Err(e),
                Ok(stop_price) => match limit_distance.spec_calculate(row.close, false, None) {
                    Err(e) => Err(e),
                    Ok(limit_price) => Ok(
                        if row.low <= stop_price && row.high >= limit_price {
                            Some(max_price(row.low, limit_price))
                        } else {
                            None
                        },
                    ),
                },
            },
            OrderType::AuctionOpen() => Ok(None),
            OrderType::AuctionClose() => Ok(None),
        }
    }

    /// Check if this is a buy order.
    pub fn is_buy(&self) -> (r: bool)
        ensures
            r == self.spec_is_buy(),
    {
        match self {
            OrderType::MarketBuy() => true,
            OrderType::LimitBuy(_) => true,
            OrderType::StopMarketBuy(_) => true,
            OrderType::StopLimitBuy(_, _) => true,
            _ => false,
        }
    }

    /// Check if this is a sell order.
    pub fn is_sell(&self) -> (r: bool)
        ensures
            r == self.spec_is_sell(),
    {
        match self {
            OrderType::MarketSell() => true,
            OrderType::LimitSell(_) => true,
            OrderType::StopMarketSell(_) => true,
            OrderType::StopLimitSell(_, _) => true,
            _ => false,
        }
    }

    /// Validate that every distance can be priced without an ATR value and
    /// that stop and limit prices are in the correct order.
    pub fn validate(&self, current_price: i64) -> (r: Result<(), OrderError>)
        ensures
            r == self.spec_validate(current_price),
    {
        match self {
            OrderType::StopLimitBuy(stop_dist, limit_dist) => {
                let stop: i64 = match stop_dist.calculate(current_price, *self, None) {
                    Ok(p) => p,
                    Err(e) => {
                        return Err(e);
                    },
                };
                let limit: i64 = match limit_dist.calculate(current_price, *self, None) {
                    Ok(p) => p,
                    Err(e) => {
                        return Err(e);
                    },
                };
                if stop > limit {
                    return Err(OrderError::InvalidOrder);
                }
            },
            OrderType::StopLimitSell(stop_dist, limit_dist) => {
                let stop: i64 = match stop_dist.calculate(current_price, *self, None) {
                    Ok(p) => p,
                    Err(e) => {
                        return Err(e);
                    },
                };
                let limit: i64 = match limit_dist.calculate(current_price, *self, None) {
                    Ok(p) => p,
                    Err(e) => {
                        return Err(e);
                    },
                };
                if stop < limit {
                    return Err(OrderError::InvalidOrder);
                }
            },
            OrderType::LimitBuy(distance) | OrderType::LimitSell(distance)
            | OrderType::StopMarketBuy(distance) | OrderType::StopMarketSell(distance) => {
                match distance.calculate(current_price, *self, None) {
                    Ok(_) => {},
                    Err(e) => {
                        return Err(e);
                    },
                }
            },
            _ => {},
        }
        Ok(())
    }

    /// The price at which an order of this type fills against `row`, if the
    /// bar makes it fill.
    pub fn fill(&self, row: &Row) -> (r: Result<Option<i64>, OrderError>)
        ensures
            r == self.spec_fill(*row),
    {
        match self {
            OrderType::MarketBuy() | OrderType::MarketSell() => Ok(Some(row.close)),
            OrderType::LimitBuy(distance) => {
                match distance.calculate(row.close, *self, None) {
                    Err(e) => Err(e),
                    Ok(price) => if row.low <= price {
                        Ok(Some(row.low))
                    } else {
                        Ok(None)
                    },
                }
            },
            OrderType::LimitSell(distance) => {
                match distance.calculate(row.close, *self, None) {
                    Err(e) => Err(e),
                    Ok(price) => if row.high >= price {
                        Ok(Some(row.high))
                    } else {
                        Ok(None)
                    },
                }
            },
            OrderType::StopMarketBuy(distance) => {
                match distance.calculate(row.close, *self, None) {
                    Err(e) => Err(e),
                    Ok(price) => if row.high >= price {
                        Ok(Some(row.high))
                    } else {
                        Ok(None)
                    },
                }
            },
            OrderType::StopMarketSell(distance) => {
                match distance.calculate(row.close, *self, None) {
                    Err(e) => Err(e),
                    Ok(price) => if row.low <= price {
                        Ok(Some(row.low))
                    } else {
                        Ok(None)
                    },
                }
            },
            OrderType::StopLimitBuy(stop_distance, limit_distance) => {
                let stop_price: i64 = match stop_distance.calculate(row.close, *self, None) {
                    Ok(p) => p,
                    Err(e) => {
                        return Err(e);
                    },
                };
                let limit_price: i64 = match limit_distance.calculate(row.close, *self, None) {
                    Ok(p) => p,
                    Err(e) => {
                        return Err(e);
                    },
                };
                if row.high >= stop_price && row.low <= limit_price {
                    Ok(
                        Some(
                            if row.high <= limit_price {
                                row.high
                            } else {
                                limit_price
                            },
                        ),
                    )
                } else {
                    Ok(None)
                }
            },
            OrderType::StopLimitSell(stop_distance, limit_distance) => {
                let stop_price: i64 = match stop_distance.calculate(row.close, *self, None) {
                    Ok(p) => p,
                    Err(e) => {
                        return Err(e);
                    },
                };
                let limit_price: i64 = match limit_distance.calculate(row.close, *self, None) {
                    Ok(p) => p,
                    Err(e) => {
                        return Err(e);
                    },
                };
                if row.low <= stop_price && row.high >= limit_price {
                    Ok(
                        Some(
                            if row.low >= limit_price {
                                row.low
                            } else {
                                limit_price
                            },
                        ),
                    )
                } else {
                    Ok(None)
                }
            },
            OrderType::AuctionOpen() | OrderType::AuctionClose() => Ok(None),
        }
    }
}

/// A pending, filled or expired order.
#[derive(Debug, Clone, Copy, PartialEq, Eq, Structural)]
pub struct Order {
    /// The order type, with its price distances.
    pub order_type: OrderType,
    pub open_or_close: OrderAction,
    /// Submission timestamp.
    pub timestamp: i64,
    pub good_until: OrderTimeline,
    /// Requested size.
    pub size: i64,
    pub fill_size: i64,
    pub fill_price: Option<i64>,
    pub completed: bool,
}

impl Order {
    /// A new order is pending: nothing filled, not completed. Its lifetime
    /// defaults to the end of the day.
    pub open spec fn spec_new(
        order_type: OrderType,
        open_or_close: OrderAction,
        timestamp: i64,
        good_until: Option<OrderTimeline>,
        size: i64,
    ) -> Order {
        Order {
            order_type,
            open_or_close,
            timestamp,
            good_until: match good_until {
                Some(g) => g,
                None => OrderTimeline::EOD,
            },
            size,
            fill_size: 0,
            fill_price: None,
            completed: false,
        }
    }

    /// An end-of-day order expires on the first bar after the market close of
    /// the day it was submitted.
    pub open spec fn spec_expired(&self, row: Row, market_hours: MarketHours) -> bool {
        match self.good_until {
            OrderTimeline::GTC => false,
            OrderTimeline::EOD => row.timestamp > spec_apply_time(
                self.timestamp,
                market_hours.market_close,
            ),
        }
    }

    /// The order after it is checked against `row`, or the error that leaves
    /// it unchanged.
    pub open spec fn spec_check(&self, row: Row, market_hours: MarketHours) -> Result<
        Order,
        OrderError,
    > {
        if self.completed {
            Err(OrderError::AlreadyCompleted)
        } else if self.fill_price.is_some() {
            Err(OrderError::AlreadyFilled)
        } else if self.spec_expired(row, market_hours) {
            Ok(Order { completed: true, ..*self })
        } else {
            match self.order_type.spec_fill(row) {
                Err(e) => Err(e),
                Ok(Some(price)) => Ok(
                    Order {
                        fill_price: Some(price),
                        fill_size: self.size,
                        completed: true,
                        ..*self
                    },
                ),
                Ok(None) => Ok(*self),
            }
        }
    }

    /// Creates a pending order, or fails if the order type is not valid at
    /// the validation price.
    pub fn new(
        order_type: OrderType,
        open_or_close: OrderAction,
        timestamp: i64,
        good_until: Option<OrderTimeline>,
        size: i64,
    ) -> (r: Result<Self, OrderError>)
        ensures
            match order_type.spec_validate(VALIDATION_PRICE) {
                Ok(_) => r == Ok::<Order, OrderError>(
                    Self::spec_new(order_type, open_or_close, timestamp, good_until, size),
                ),
                Err(e) => r == Err::<Order, OrderError>(e),
            },
    {
        match order_type.validate(VALIDATION_PRICE) {
            Ok(_) => {},
            Err(e) => {
                return Err(e);
            },
        }
        Ok(
            Order {
                order_type,
                open_or_close,
                timestamp,
                good_until: match good_until {
                    Some(g) => g,
                    None => OrderTimeline::EOD,
                },
                size,
                fill_size: 0,
                fill_price: None,
                completed: false,
            },
        )
    }

    /// Checks the order against a bar: the order expires, fills in full, or
    /// stays pending. Checking a completed or filled order is an error.
    pub fn check(&mut self, row: &Row, market_hours: &MarketHours) -> (r: Result<(), OrderError>)
        ensures
            match old(self).spec_check(*row, *market_hours) {
                Ok(next) => r.is_ok() && *final(self) == next,
                Err(e) => r == Err::<(), OrderError>(e) && *final(self) == *old(self),
            },
    {
        if self.completed {
            return Err(OrderError::AlreadyCompleted);
        }
        if self.fill_price.is_some() {
            return Err(OrderError::AlreadyFilled);
        }
        let expired: bool = match self.good_until {
            OrderTimeline::GTC => false,
            OrderTimeline::EOD => row.timestamp > get_mc_timestamp(self.timestamp, market_hours),
        };
        if expired {
            self.completed = true;
            return Ok(());
        }
        match self.order_type.fill(row) {
            Err(e) => {
                return Err(e);
            },
            Ok(Some(price)) => {
                self.fill_price = Some(price);
                self.fill_size = self.size;
                self.completed = true;
            },
            Ok(None) => {},
        }
        Ok(())
    }
}

/// An order type with an ATR distance fails validation at any price: the
/// ATR is required. Every other type is valid or has its stop on the wrong
/// side of its limit.
pub proof fn lemma_atr_fails_validation(order_type: OrderType, current_price: i64)
    ensures
        order_type.spec_needs_atr() <==> order_type.spec_validate(current_price) == Err::<
            (),
            OrderError,
        >(OrderError::ATRRequired),
        !order_type.spec_needs_atr() ==> order_type.spec_validate(current_price).is_ok()
            || order_type.spec_validate(current_price) == Err::<(), OrderError>(
            OrderError::InvalidOrder,
        ),
{
}

/// No order can be made of a type with an ATR distance, and an order that
/// was made never fails a check for want of an ATR: a check of a pending
/// order succeeds on every bar.
pub proof fn lemma_orders_need_no_atr(
    order_type: OrderType,
    open_or_close: OrderAction,
    timestamp: i64,
    good_until: Option<OrderTimeline>,
    size: i64,
    row: Row,
    market_hours: MarketHours,
)
    ensures
        order_type.spec_needs_atr() ==> order_type.spec_validate(VALIDATION_PRICE) == Err::<
            (),
            OrderError,
        >(OrderError::ATRRequired),
        order_type.spec_validate(VALIDATION_PRICE).is_ok() ==> order_type.spec_fill(row).is_ok()
            && Order::spec_new(order_type, open_or_close, timestamp, good_until, size).spec_check(
            row,
            market_hours,
        ).is_ok(),
{
    lemma_atr_fails_validation(order_type, VALIDATION_PRICE);
}

/// Whatever the order type, a fill against a bar whose close lies between
/// its low and its high is priced within the bar.
pub proof fn lemma_fill_within_bar(order_type: OrderType, row: Row)
    requires
        row.low <= row.close <= row.high,
    ensures
        match order_type.spec_fill(row) {
            Ok(Some(price)) => row.low <= price <= row.high,
            _ => true,
        },
{
}

/// A check leaves a pending order in exactly one of three states: pending
/// and unchanged, filled in full at a price within the bar, or expired
/// without a fill. What the order asks for never changes.
pub proof fn lemma_check_outcomes(order: Order, row: Row, market_hours: MarketHours)
    requires
        !order.completed,
        order.fill_price.is_none(),
        order.fill_size == 0,
        row.low <= row.close <= row.high,
        order.spec_check(row, market_hours).is_ok(),
    ensures
        ({
            let next = order.spec_check(row, market_hours).unwrap();
            &&& next.order_type == order.order_type
            &&& next.open_or_close == order.open_or_close
            &&& next.timestamp == order.timestamp
            &&& next.good_until == order.good_until
            &&& next.size == order.size
            &&& {
                ||| next == order
                ||| (next.completed && next.fill_size == order.size && (
                next.fill_price matches Some(price) && row.low <= price <= row.high))
                ||| (next.completed && next.fill_price.is_none() && next.fill_size == 0)
            }
        }),
{
    lemma_fill_within_bar(order.order_type, row);
}

/// A completed order only ever answers a check with an error, and is left
/// unchanged by it.
pub proof fn lemma_completed_is_terminal(order: Order, row: Row, market_hours: MarketHours)
    requires
        order.completed || order.fill_price.is_some(),
    ensures
        order.spec_check(row, market_hours).is_err(),
{
}

/// An order that a check completes is either filled in full or expired
/// without a fill.
pub proof fn lemma_check_fills_in_full(order: Order, row: Row, market_hours: MarketHours)
    requires
        order.spec_check(row, market_hours).is_ok(),
    ensures
        ({
            let next = order.spec_check(row, market_hours).unwrap();
            &&& next.fill_price.is_some() ==> next.completed && next.fill_size == order.size
            &&& !next.completed ==> next == order
        }),
{
}

} // verus!
