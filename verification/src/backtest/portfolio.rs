//! Capital, positions and the queue of pending orders.
//!
//! The portfolio turns each signal into at most one order, admits opening
//! orders only when they can be afforded, applies the replacement policy when
//! they cannot, and checks the pending orders against each bar.

use crate::backtest::signal::{Signal, SignalType};
use crate::config::{Config, ReplacementStrategy};
use crate::fixed::{clamp_i64, fx_add, fx_mul_int, fx_sub, lemma_product_fits};
use crate::position::order::{Order, OrderAction, OrderType, VALIDATION_PRICE};
use crate::position::position::{Position, PositionState, PositionView};
use crate::position::side::Side;
use crate::position::strategy::Action;
use crate::types::log::{clone_values, values_view, IndicatorValues, TradeLog, TradeLogView};
use crate::types::ohlcv::Row;
use std::collections::VecDeque;
use vstd::prelude::*;

verus! {

/// An order waiting in the queue, with what the trade log will need.
pub struct PendingOrder {
    pub order: Order,
    pub ticker: String,
    pub strategy_name: String,
    pub indicator_values: IndicatorValues,
}

/// A pending order with its strings as sequences of characters.
pub struct PendingOrderView {
    pub order: Order,
    pub ticker: Seq<char>,
    pub strategy_name: Seq<char>,
    pub indicator_values: Seq<(Seq<char>, i64)>,
}

impl View for PendingOrder {
    type V = PendingOrderView;

    open spec fn view(&self) -> PendingOrderView {
        PendingOrderView {
            order: self.order,
            ticker: self.ticker@,
            strategy_name: self.strategy_name@,
            indicator_values: values_view(self.indicator_values@),
        }
    }
}

/// The state of a portfolio.
pub struct PortfolioView {
    pub buying_power: i64,
    /// Open positions in the order in which their tickers were first opened.
    pub open_positions: Seq<PositionView>,
    /// Closed positions, oldest close first.
    pub closed_positions: Seq<PositionView>,
    /// Pending orders, front of the queue first.
    pub pending_orders: Seq<PendingOrderView>,
    pub config: Config,
}

/// Owns the buying power, the positions and the queue of pending orders.
pub struct Portfolio {
    pub buying_power: i64,
    /// At most one open position per ticker.
    pub open_positions: Vec<Position>,
    pub closed_positions: Vec<Position>,
    /// FIFO queue of pending orders, across tickers.
    pub pending_orders: VecDeque<PendingOrder>,
    pub config: Config,
}

pub open spec fn positions_view(positions: Seq<Position>) -> Seq<PositionView> {
    Seq::new(positions.len(), |i: int| positions[i]@)
}

pub open spec fn pending_view(pending: Seq<PendingOrder>) -> Seq<PendingOrderView> {
    Seq::new(pending.len(), |i: int| pending[i]@)
}

pub open spec fn logs_view(logs: Seq<TradeLog>) -> Seq<TradeLogView> {
    Seq::new(logs.len(), |i: int| logs[i]@)
}

impl View for Portfolio {
    type V = PortfolioView;

    open spec fn view(&self) -> PortfolioView {
        PortfolioView {
            buying_power: self.buying_power,
            open_positions: positions_view(self.open_positions@),
            closed_positions: positions_view(self.closed_positions@),
            pending_orders: pending_view(self.pending_orders@),
            config: self.config,
        }
    }
}

/// Whether some position is held in `ticker`.
pub open spec fn has_position(positions: Seq<PositionView>, ticker: Seq<char>) -> bool {
    exists|i: int| 0 <= i < positions.len() && (#[trigger] positions[i]).ticker == ticker
}

/// `i` is the first index of a position in `ticker`.
pub open spec fn is_position_index(positions: Seq<PositionView>, ticker: Seq<char>, i: int) -> bool {
    &&& 0 <= i < positions.len()
    &&& positions[i].ticker == ticker
    &&& forall|j: int| 0 <= j < i ==> (#[trigger] positions[j]).ticker != ticker
}

/// The index of the position in `ticker`.
pub open spec fn position_index(positions: Seq<PositionView>, ticker: Seq<char>) -> int
    recommends
        has_position(positions, ticker),
{
    choose|i: int| is_position_index(positions, ticker, i)
}

/// `i` is the first position with the earliest entry.
pub open spec fn is_oldest(positions: Seq<PositionView>, i: int) -> bool {
    &&& 0 <= i < positions.len()
    &&& forall|j: int|
        0 <= j < positions.len() ==> positions[i].entry_timestamp <= (
        #[trigger] positions[j]).entry_timestamp
    &&& forall|j: int|
        0 <= j < i ==> positions[i].entry_timestamp < (#[trigger] positions[j]).entry_timestamp
}

/// `i` is the last position with the latest entry.
pub open spec fn is_newest(positions: Seq<PositionView>, i: int) -> bool {
    &&& 0 <= i < positions.len()
    &&& forall|j: int|
        0 <= j < positions.len() ==> positions[i].entry_timestamp >= (
        #[trigger] positions[j]).entry_timestamp
    &&& forall|j: int|
        i < j < positions.len() ==> positions[i].entry_timestamp > (
        #[trigger] positions[j]).entry_timestamp
}

/// No two positions share a ticker, and every one of them is open.
pub open spec fn one_per_ticker(positions: Seq<PositionView>) -> bool {
    &&& forall|i: int, j: int|
        0 <= i < j < positions.len() ==> (#[trigger] positions[i]).ticker != (
        #[trigger] positions[j]).ticker
    &&& forall|i: int|
        0 <= i < positions.len() ==> (#[trigger] positions[i]).state == PositionState::Open
}

/// The market order that closes a position of the given side.
pub open spec fn closing_type(side: Side) -> Option<OrderType> {
    match side {
        Side::Long => Some(OrderType::MarketSell()),
        Side::Short => Some(OrderType::MarketBuy()),
        Side::Flat => None,
    }
}

/// The queued order that closes `position` to make room for a new order.
pub open spec fn closing_order(position: PositionView, order_type: OrderType, timestamp: i64) -> PendingOrderView {
    PendingOrderView {
        order: Order::spec_new(order_type, OrderAction::Close, timestamp, None, position.size),
        ticker: position.ticker,
        strategy_name: "Replacement"@,
        indicator_values: Seq::empty(),
    }
}

/// The queue after an order is put behind a new order that closes the open
/// position at `index`: the closing order goes to the front, the new order to
/// the back. Without an open position, or with one that has no direction,
/// the queue stays as it is and the new order is dropped.
pub open spec fn replace_position(s: PortfolioView, pending: PendingOrderView, index: int) -> Seq<
    PendingOrderView,
> {
    if s.open_positions.len() == 0 {
        s.pending_orders
    } else {
        let position = s.open_positions[index];
        match closing_type(position.side) {
            Some(order_type) => (seq![closing_order(position, order_type, pending.order.timestamp)]
                + s.pending_orders).push(pending),
            None => s.pending_orders,
        }
    }
}

/// The queue after the replacement policy has dealt with an opening order
/// that cannot be afforded.
pub open spec fn spec_replacement(s: PortfolioView, pending: PendingOrderView) -> Seq<
    PendingOrderView,
> {
    match s.config.replacement_strategy {
        ReplacementStrategy::Cancel => s.pending_orders,
        ReplacementStrategy::Queue => s.pending_orders.push(pending),
        ReplacementStrategy::ReplaceSignal => s.pending_orders.push(pending),
        ReplacementStrategy::ReplaceOldest => replace_position(
            s,
            pending,
            choose|i: int| is_oldest(s.open_positions, i),
        ),
        ReplacementStrategy::ReplaceNewest => replace_position(
            s,
            pending,
            choose|i: int| is_newest(s.open_positions, i),
        ),
    }
}

/// What a trigger signal asks for: nothing, an order that closes the open
/// position with its size, or an opening order sized by the sizing rule.
pub open spec fn signal_intent(
    s: PortfolioView,
    ticker: Seq<char>,
    order_type: OrderType,
    price: i64,
) -> Option<(OrderAction, i64)> {
    if has_position(s.open_positions, ticker) {
        let position = s.open_positions[position_index(s.open_positions, ticker)];
        if (order_type.spec_is_buy() && position.side == Side::Short) || (order_type.spec_is_sell()
            && position.side == Side::Long) {
            Some((OrderAction::Close, position.size))
        } else {
            None
        }
    } else if order_type.spec_is_buy() || order_type.spec_is_sell() {
        Some((OrderAction::Open, s.config.sizing_strategy.spec_calculate(price, s.buying_power)))
    } else {
        None
    }
}

/// The queue after a signal has been processed.
pub open spec fn spec_process_signal(
    s: PortfolioView,
    ticker: Seq<char>,
    signal_type: SignalType,
    price: i64,
    timestamp: i64,
    indicator_values: Seq<(Seq<char>, i64)>,
    strategy_name: Seq<char>,
) -> Seq<PendingOrderView> {
    match signal_type {
        SignalType::Value(_) => s.pending_orders,
        SignalType::Trigger(order_type) => match signal_intent(s, ticker, order_type, price) {
            None => s.pending_orders,
            Some((action, size)) => match order_type.spec_validate(VALIDATION_PRICE) {
                Err(_) => s.pending_orders,
                Ok(_) => {
                    let pending = PendingOrderView {
                        order: Order::spec_new(order_type, action, timestamp, None, size),
                        ticker,
                        strategy_name,
                        indicator_values,
                    };
                    if action == OrderAction::Open && price * size > s.buying_power {
                        spec_replacement(s, pending)
                    } else {
                        s.pending_orders.push(pending)
                    }
                },
            },
        },
    }
}

/// The state after all of `signals` have been processed, in order.
pub open spec fn spec_submit(
    s: PortfolioView,
    signals: Seq<Signal>,
    price: i64,
    timestamp: i64,
    indicator_values: Seq<(Seq<char>, i64)>,
    strategy_name: Seq<char>,
) -> PortfolioView
    decreases signals.len(),
{
    if signals.len() == 0 {
        s
    } else {
        let before = spec_submit(
            s,
            signals.drop_last(),
            price,
            timestamp,
            indicator_values,
            strategy_name,
        );
        PortfolioView {
            pending_orders: spec_process_signal(
                before,
                signals.last().ticker@,
                signals.last().signal_type,
                price,
                timestamp,
                indicator_values,
                strategy_name,
            ),
            ..before
        }
    }
}

/// The position that a filled opening order creates.
pub open spec fn opened_position(pending: PendingOrderView, fill_price: i64, id: Seq<char>) -> PositionView {
    PositionView {
        id,
        ticker: pending.ticker,
        side: if pending.order.order_type.spec_is_buy() {
            Side::Long
        } else {
            Side::Short
        },
        size: pending.order.fill_size,
        entry_price: fill_price,
        entry_timestamp: pending.order.timestamp,
        exit_price: None,
        exit_timestamp: None,
        state: PositionState::Open,
    }
}

/// The state after a filled order has been executed, and the log of the
/// trade if there was one.
///
/// Opening costs `fill_price * size`; an order whose cost exceeds the buying
/// power is dropped. Opening a long debits the cost, opening a short credits
/// it. Closing does the inverse with the size of the position, and moves the
/// position to the closed ones; a closing order without a position is
/// dropped.
pub open spec fn spec_apply_fill(
    s: PortfolioView,
    pending: PendingOrderView,
    fill_price: i64,
    id: Seq<char>,
) -> (PortfolioView, Option<TradeLogView>) {
    match pending.order.open_or_close {
        OrderAction::Open => {
            let cost = fill_price * pending.order.fill_size;
            if s.buying_power < cost {
                (s, None)
            } else {
                let position = opened_position(pending, fill_price, id);
                let buying_power = match position.side {
                    Side::Long => clamp_i64(s.buying_power - clamp_i64(cost)),
                    _ => clamp_i64(s.buying_power + clamp_i64(cost)),
                };
                let open_positions = if has_position(s.open_positions, pending.ticker) {
                    s.open_positions.update(
                        position_index(s.open_positions, pending.ticker),
                        position,
                    )
                } else {
                    s.open_positions.push(position)
                };
                (
                    PortfolioView { buying_power, open_positions, ..s },
                    Some(
                        TradeLog::spec_new(
                            position,
                            Action::Entry,
                            pending.strategy_name,
                            "OrderFilled"@,
                            pending.indicator_values,
                        ),
                    ),
                )
            }
        },
        OrderAction::Close => {
            if has_position(s.open_positions, pending.ticker) {
                let index = position_index(s.open_positions, pending.ticker);
                let position = s.open_positions[index];
                let closed = position.closed_at(fill_price, pending.order.timestamp);
                let amount = clamp_i64(fill_price * position.size);
                let buying_power = match position.side {
                    Side::Short => clamp_i64(s.buying_power - amount),
                    Side::Long => clamp_i64(s.buying_power + amount),
                    Side::Flat => s.buying_power,
                };
                (
                    PortfolioView {
                        buying_power,
                        open_positions: s.open_positions.remove(index),
                        closed_positions: s.closed_positions.push(closed),
                        ..s
                    },
                    Some(
                        TradeLog::spec_new(
                            closed,
                            Action::Exit,
                            pending.strategy_name,
                            "OrderFilled"@,
                            pending.indicator_values,
                        ),
                    ),
                )
            } else {
                (s, None)
            }
        },
    }
}

/// A portfolio state together with the trade logs produced so far.
pub struct ScanResult {
    pub state: PortfolioView,
    pub logs: Seq<TradeLogView>,
}

/// `acc` with `pending` kept in the queue.
pub open spec fn keep_pending(acc: ScanResult, pending: PendingOrderView) -> ScanResult {
    ScanResult {
        state: PortfolioView {
            pending_orders: acc.state.pending_orders.push(pending),
            ..acc.state
        },
        ..acc
    }
}

/// One pending order checked against a bar.
///
/// An order for another ticker stays in the queue. An order that fills is
/// executed and leaves the queue; one that expires leaves it too; one that
/// stays pending is kept. An order whose check fails leaves the queue if it
/// was already completed, and is kept otherwise.
pub open spec fn spec_scan_step(
    acc: ScanResult,
    pending: PendingOrderView,
    row: Row,
    id: Seq<char>,
) -> ScanResult {
    if pending.ticker != row.ticker@ {
        keep_pending(acc, pending)
    } else {
        match pending.order.spec_check(row, acc.state.config.market_hours) {
            Ok(next) => {
                if next.completed {
                    match next.fill_price {
                        Some(fill_price) => {
                            let (state, log) = spec_apply_fill(
                                acc.state,
                                PendingOrderView { order: next, ..pending },
                                fill_price,
                                id,
                            );
                            ScanResult {
                                state,
                                logs: match log {
                                    Some(l) => acc.logs.push(l),
                                    None => acc.logs,
                                },
                            }
                        },
                        None => acc,
                    }
                } else {
                    keep_pending(acc, PendingOrderView { order: next, ..pending })
                }
            },
            Err(_) => {
                if pending.order.completed {
                    acc
                } else {
                    keep_pending(acc, pending)
                }
            },
        }
    }
}

/// The whole queue checked against a bar, front to back. `ids[k]` is the
/// identifier that the position gets if the order at place `k` of the queue
/// opens one.
pub open spec fn spec_scan(
    s: PortfolioView,
    queue: Seq<PendingOrderView>,
    row: Row,
    ids: Seq<Seq<char>>,
) -> ScanResult
    decreases queue.len(),
{
    if queue.len() == 0 {
        ScanResult { state: PortfolioView { pending_orders: Seq::empty(), ..s }, logs: Seq::empty() }
    } else {
        spec_scan_step(
            spec_scan(s, queue.drop_last(), row, ids.drop_last()),
            queue.last(),
            row,
            ids.last(),
        )
    }
}

/// `uuid::Uuid::new_v4`, in the text form that `to_string` gives it: a fresh
/// random identifier. Nothing is claimed of its value.
#[verifier::external_body]
fn new_position_id() -> (id: String) {
    uuid::Uuid::new_v4().to_string()
}

impl Portfolio {
    /// At most one open position per ticker, and every open position is in
    /// the open state.
    pub open spec fn wf(&self) -> bool {
        one_per_ticker(self@.open_positions)
    }

    /// The state of a new portfolio: the starting buying power of `config`,
    /// no position and no order.
    pub open spec fn new_view(config: Config) -> PortfolioView {
        PortfolioView {
            buying_power: config.starting_buying_power,
            open_positions: Seq::empty(),
            closed_positions: Seq::empty(),
            pending_orders: Seq::empty(),
            config,
        }
    }

    /// A portfolio without positions or orders that holds the starting buying
    /// power of `config`.
    pub fn new(config: &Config) -> (r: Self)
        ensures
            r.wf(),
            r@ == Self::new_view(*config),
    {
        let r = Portfolio {
            buying_power: config.starting_buying_power,
            open_positions: Vec::new(),
            closed_positions: Vec::new(),
            pending_orders: VecDeque::new(),
            config: *config,
        };
        assert(r@.open_positions =~= Seq::empty());
        assert(r@.closed_positions =~= Seq::empty());
        assert(r@.pending_orders =~= Seq::empty());
        r
    }

    /// Prices are not stored with positions; this changes nothing.
    pub fn update_prices(&mut self, _ticker: &str, _price: i64)
        ensures
            *final(self) == *old(self),
    {
    }

    /// The index of the open position in `ticker`.
    pub fn find_open(&self, ticker: &String) -> (r: Option<usize>)
        ensures
            match r {
                Some(i) => is_position_index(self@.open_positions, ticker@, i as int) && i
                    == position_index(self@.open_positions, ticker@) && has_position(
                    self@.open_positions,
                    ticker@,
                ),
                None => !has_position(self@.open_positions, ticker@),
            },
    {
        let n: usize = self.open_positions.len();
        let mut i: usize = 0;
        while i < n
            invariant
                n == self.open_positions@.len(),
                i <= n,
                forall|j: int| 0 <= j < i ==> (#[trigger] self@.open_positions[j]).ticker != ticker@,
            decreases n - i,
        {
            if self.open_positions[i].ticker == *ticker {
                proof {
                    let positions = self@.open_positions;
                    assert(positions[i as int].ticker == ticker@);
                    lemma_position_index_unique(positions, ticker@, i as int);
                }
                return Some(i);
            }
            i = i + 1;
        }
        None
    }

    /// The index of the open position that was entered first.
    fn get_oldest_position(&self) -> (r: Option<usize>)
        ensures
            match r {
                Some(i) => is_oldest(self@.open_positions, i as int) && i == (choose|k: int|
                    is_oldest(self@.open_positions, k)),
                None => self@.open_positions.len() == 0,
            },
    {
        let n: usize = self.open_positions.len();
        if n == 0 {
            return None;
        }
        let mut best: usize = 0;
        let mut i: usize = 1;
        while i < n
            invariant
                n == self.open_positions@.len(),
                1 <= i <= n,
                best < i,
                forall|j: int|
                    0 <= j < i ==> self@.open_positions[best as int].entry_timestamp <= (
                    #[trigger] self@.open_positions[j]).entry_timestamp,
                forall|j: int|
                    0 <= j < best ==> self@.open_positions[best as int].entry_timestamp < (
                    #[trigger] self@.open_positions[j]).entry_timestamp,
            decreases n - i,
        {
            if self.open_positions[i].entry_timestamp < self.open_positions[best].entry_timestamp {
                best = i;
            }
            i = i + 1;
        }
        proof {
            lemma_oldest_unique(self@.open_positions, best as int);
        }
        Some(best)
    }

    /// The index of the open position that was entered last.
    fn get_newest_position(&self) -> (r: Option<usize>)
        ensures
            match r {
                Some(i) => is_newest(self@.open_positions, i as int) && i == (choose|k: int|
                    is_newest(self@.open_positions, k)),
                None => self@.open_positions.len() == 0,
            },
    {
        let n: usize = self.open_positions.len();
        if n == 0 {
            return None;
        }
        let mut best: usize = 0;
        let mut i: usize = 1;
        while i < n
            invariant
                n == self.open_positions@.len(),
                1 <= i <= n,
                best < i,
                forall|j: int|
                    0 <= j < i ==> self@.open_positions[best as int].entry_timestamp >= (
                    #[trigger] self@.open_positions[j]).entry_timestamp,
                forall|j: int|
                    best < j < i ==> self@.open_positions[best as int].entry_timestamp > (
                    #[trigger] self@.open_positions[j]).entry_timestamp,
            decreases n - i,
        {
            if self.open_positions[i].entry_timestamp >= self.open_positions[best].entry_timestamp {
                best = i;
            }
            i = i + 1;
        }
        proof {
            lemma_newest_unique(self@.open_positions, best as int);
        }
        Some(best)
    }

    /// The ticker of the open position that was entered first.
    pub fn get_oldest_position_ticker(&self) -> (r: Option<String>)
        ensures
            match r {
                Some(t) => exists|i: int|
                    is_oldest(self@.open_positions, i) && t@ == self@.open_positions[i].ticker,
                None => self@.open_positions.len() == 0,
            },
    {
        match self.get_oldest_position() {
            Some(i) => Some(self.open_positions[i].ticker.clone()),
            None => None,
        }
    }

    /// The ticker of the open position that was entered last.
    pub fn get_newest_position_ticker(&self) -> (r: Option<String>)
        ensures
            match r {
                Some(t) => exists|i: int|
                    is_newest(self@.open_positions, i) && t@ == self@.open_positions[i].ticker,
                None => self@.open_positions.len() == 0,
            },
    {
        match self.get_newest_position() {
            Some(i) => Some(self.open_positions[i].ticker.clone()),
            None => None,
        }
    }

    /// Applies the replacement policy to an opening order that cannot be
    /// afforded.
    fn handle_replacement_strategy(&mut self, pending: PendingOrder)
        ensures
            final(self)@ == (PortfolioView {
                pending_orders: spec_replacement(old(self)@, pending@),
                ..old(self)@
            }),
    {
        let ghost before = self.pending_orders@;
        match self.config.replacement_strategy {
            ReplacementStrategy::Cancel => {},
            ReplacementStrategy::Queue => {
                self.pending_orders.push_back(pending);
                assert(pending_view(self.pending_orders@) =~= pending_view(before).push(pending@));
            },
            ReplacementStrategy::ReplaceSignal => {
                self.pending_orders.push_back(pending);
                assert(pending_view(self.pending_orders@) =~= pending_view(before).push(pending@));
            },
            ReplacementStrategy::ReplaceOldest => {
                let target: Option<usize> = self.get_oldest_position();
                self.queue_replacement(target, pending);
            },
            ReplacementStrategy::ReplaceNewest => {
                let target: Option<usize> = self.get_newest_position();
                self.queue_replacement(target, pending);
            },
        }
    }

    /// Queues an order that closes the open position at `target`, in front of
    /// everything, and the new order behind everything.
    #[verifier::rlimit(50)]
    fn queue_replacement(&mut self, target: Option<usize>, pending: PendingOrder)
        requires
            match target {
                Some(i) => i < old(self)@.open_positions.len(),
                None => old(self)@.open_positions.len() == 0,
            },
        ensures
            final(self)@ == (PortfolioView {
                pending_orders: replace_position(
                    old(self)@,
                    pending@,
                    match target {
                        Some(i) => i as int,
                        None => 0,
                    },
                ),
                ..old(self)@
            }),
    {
        let ghost before = self.pending_orders@;
        if let Some(index) = target {
            let close_type: OrderType = match self.open_positions[index].side {
                Side::Long => OrderType::MarketSell(),
                Side::Short => OrderType::MarketBuy(),
                Side::Flat => {
                    return ;
                },
            };
            let size: i64 = self.open_positions[index].size;
            match Order::new(close_type, OrderAction::Close, pending.order.timestamp, None, size) {
                Ok(close_order) => {
                    let ticker: String = self.open_positions[index].ticker.clone();
                    let closing = PendingOrder {
                        order: close_order,
                        ticker,
                        strategy_name: "Replacement".to_owned(),
                        indicator_values: Vec::new(),
                    };
                    proof {
                        assert(closing@.indicator_values =~= Seq::empty());
                        assert(closing@ == closing_order(
                            old(self)@.open_positions[index as int],
                            close_type,
                            pending.order.timestamp,
                        ));
                    }
                    self.pending_orders.push_front(closing);
                    self.pending_orders.push_back(pending);
                    assert(pending_view(self.pending_orders@) =~= (seq![closing@] + pending_view(
                        before,
                    )).push(pending@));
                },
                Err(_) => {},
            }
        }
    }

    /// Processes a new signal, potentially queueing an order.
    ///
    /// A signal for a ticker without an open position opens one; a signal
    /// against the side of the open position closes it with the position's
    /// size; a signal in the direction of the open position does nothing. An
    /// opening order whose estimated cost `price * size` exceeds the buying
    /// power goes to the replacement policy instead of the queue.
    #[verifier::rlimit(50)]
    pub fn process_signal(
        &mut self,
        signal: &Signal,
        price: i64,
        timestamp: i64,
        indicator_values: &IndicatorValues,
        strategy_name: &str,
    )
        ensures
            final(self)@ == (PortfolioView {
                pending_orders: spec_process_signal(
                    old(self)@,
                    signal.ticker@,
                    signal.signal_type,
                    price,
                    timestamp,
                    values_view(indicator_values@),
                    strategy_name@,
                ),
                ..old(self)@
            }),
    {
        let ghost before = self.pending_orders@;
        match signal.signal_type {
            SignalType::Trigger(order_type) => {
                let is_buy: bool = order_type.is_buy();
                let is_sell: bool = order_type.is_sell();
                let maybe_pos: Option<usize> = self.find_open(&signal.ticker);
                let action: OrderAction;
                let order_size: i64;
                match maybe_pos {
                    Some(index) => {
                        let side: Side = self.open_positions[index].side;
                        if (is_buy && side == Side::Short) || (is_sell && side == Side::Long) {
                            action = OrderAction::Close;
                            order_size = self.open_positions[index].size;
                        } else {
                            return ;
                        }
                    },
                    None => {
                        if is_buy || is_sell {
                            action = OrderAction::Open;
                            order_size = self.config.sizing_strategy.calculate(
                                price,
                                self.buying_power,
                                Some(signal),
                            );
                        } else {
                            return ;
                        }
                    },
                }
                match Order::new(order_type, action, timestamp, None, order_size) {
                    Ok(order) => {
                        let pending = PendingOrder {
                            order,
                            ticker: signal.ticker.clone(),
                            strategy_name: strategy_name.to_owned(),
                            indicator_values: clone_values(indicator_values),
                        };
                        if action == OrderAction::Open {
                            proof {
                                lemma_product_fits(price as int, order_size as int);
                            }
                            let estimated_cost: i128 = price as i128 * order_size as i128;
                            if estimated_cost > self.buying_power as i128 {
                                self.handle_replacement_strategy(pending);
                                return ;
                            }
                        }
                        self.pending_orders.push_back(pending);
                        assert(pending_view(self.pending_orders@) =~= pending_view(before).push(
                            pending@,
                        ));
                    },
                    Err(_) => {},
                }
            },
            SignalType::Value(_) => {},
        }
    }

    /// Processes every signal, in order.
    pub fn process_signals(
        &mut self,
        signals: &Vec<Signal>,
        price: i64,
        timestamp: i64,
        indicator_values: &IndicatorValues,
        strategy_name: &str,
    )
        ensures
            final(self)@ == spec_submit(
                old(self)@,
                signals@,
                price,
                timestamp,
                values_view(indicator_values@),
                strategy_name@,
            ),
    {
        let n: usize = signals.len();
        let mut k: usize = 0;
        proof {
            assert(signals@.take(0) =~= Seq::<Signal>::empty());
        }
        while k < n
            invariant
                n == signals@.len(),
                k <= n,
                self@ == spec_submit(
                    old(self)@,
                    signals@.take(k as int),
                    price,
                    timestamp,
                    values_view(indicator_values@),
                    strategy_name@,
                ),
            decreases n - k,
        {
            proof {
                assert(signals@.take(k + 1).drop_last() =~= signals@.take(k as int));
                assert(signals@.take(k + 1).last() == signals@[k as int]);
            }
            self.process_signal(&signals[k], price, timestamp, indicator_values, strategy_name);
            k = k + 1;
        }
        proof {
            assert(signals@.take(n as int) =~= signals@);
        }
    }

    /// Executes a filled order whose new position, if it opens one, gets the
    /// identifier `id`.
    #[verifier::rlimit(50)]
    pub fn apply_fill(&mut self, pending: PendingOrder, fill_price: i64, id: String) -> (r: Option<
        TradeLog,
    >)
        requires
            old(self).wf(),
        ensures
            final(self).wf(),
            final(self)@ == spec_apply_fill(old(self)@, pending@, fill_price, id@).0,
            match r {
                Some(log) => spec_apply_fill(old(self)@, pending@, fill_price, id@).1 == Some(log@),
                None => spec_apply_fill(old(self)@, pending@, fill_price, id@).1.is_none(),
            },
    {
        let size: i64 = pending.order.fill_size;
        let ghost open0 = self.open_positions@;
        let ghost closed0 = self.closed_positions@;
        match pending.order.open_or_close {
            OrderAction::Open => {
                proof {
                    lemma_product_fits(fill_price as int, size as int);
                }
                let cost_wide: i128 = fill_price as i128 * size as i128;
                if (self.buying_power as i128) < cost_wide {
                    return None;
                }
                let cost: i64 = fx_mul_int(fill_price, size);
                let side: Side = if pending.order.order_type.is_buy() {
                    Side::Long
                } else {
                    Side::Short
                };
                match side {
                    Side::Long => {
                        self.buying_power = fx_sub(self.buying_power, cost);
                    },
                    _ => {
                        self.buying_power = fx_add(self.buying_power, cost);
                    },
                }
                let position = Position::new(
                    id,
                    pending.ticker.clone(),
                    side,
                    size,
                    fill_price,
                    pending.order.timestamp,
                );
                assert(position@ == opened_position(pending@, fill_price, id@));
                match self.find_open(&pending.ticker) {
                    Some(index) => {
                        let _ = self.open_positions.remove(index);
                        self.open_positions.insert(index, position.duplicate());
                        proof {
                            assert(positions_view(self.open_positions@) =~= positions_view(
                                open0,
                            ).update(index as int, position@));
                            lemma_update_keeps_one_per_ticker(
                                positions_view(open0),
                                index as int,
                                position@,
                            );
                        }
                    },
                    None => {
                        self.open_positions.push(position.duplicate());
                        proof {
                            assert(positions_view(self.open_positions@) =~= positions_view(
                                open0,
                            ).push(position@));
                            lemma_push_keeps_one_per_ticker(positions_view(open0), position@);
                        }
                    },
                }
                Some(
                    TradeLog::new(
                        position,
                        Action::Entry,
                        pending.strategy_name,
                        "OrderFilled".to_owned(),
                        pending.indicator_values,
                    ),
                )
            },
            OrderAction::Close => {
                match self.find_open(&pending.ticker) {
                    Some(index) => {
                        let mut position: Position = self.open_positions.remove(index);
                        proof {
                            assert(position@ == positions_view(open0)[index as int]);
                            assert(positions_view(self.open_positions@) =~= positions_view(
                                open0,
                            ).remove(index as int));
                            lemma_remove_keeps_one_per_ticker(positions_view(open0), index as int);
                        }
                        let ghost was = position@;
                        match position.close(fill_price, pending.order.timestamp) {
                            Ok(_) => {},
                            Err(_) => {
                                return None;
                            },
                        }
                        assert(position@ == was.closed_at(fill_price, pending.order.timestamp));
                        let amount: i64 = fx_mul_int(fill_price, position.size);
                        match position.side {
                            Side::Short => {
                                self.buying_power = fx_sub(self.buying_power, amount);
                            },
                            Side::Long => {
                                self.buying_power = fx_add(self.buying_power, amount);
                            },
                            Side::Flat => {},
                        }
                        let log = TradeLog::new(
                            position.duplicate(),
                            Action::Exit,
                            pending.strategy_name,
                            "OrderFilled".to_owned(),
                            pending.indicator_values,
                        );
                        self.closed_positions.push(position);
                        assert(positions_view(self.closed_positions@) =~= positions_view(
                            closed0,
                        ).push(position@));
                        Some(log)
                    },
                    None => None,
                }
            },
        }
    }

    /// Executes a filled order. A position that it opens gets a fresh random
    /// identifier.
    fn execute_trade(&mut self, pending: PendingOrder, fill_price: i64) -> (r: Option<TradeLog>)
        requires
            old(self).wf(),
        ensures
            final(self).wf(),
            exists|id: Seq<char>|
                {
                    &&& final(self)@ == (#[trigger] spec_apply_fill(
                        old(self)@,
                        pending@,
                        fill_price,
                        id,
                    )).0
                    &&& match r {
                        Some(log) => spec_apply_fill(old(self)@, pending@, fill_price, id).1
                            == Some(log@),
                        None => spec_apply_fill(old(self)@, pending@, fill_price, id).1.is_none(),
                    }
                },
    {
        let id: String = match pending.order.open_or_close {
            OrderAction::Open => new_position_id(),
            OrderAction::Close => String::new(),
        };
        let ghost chosen = id@;
        let r = self.apply_fill(pending, fill_price, id);
        proof {
            let _ = spec_apply_fill(old(self)@, pending@, fill_price, chosen);
        }
        r
    }

    /// Checks all pending orders against a bar and returns the logs of the
    /// trades that were executed.
    ///
    /// Only orders for the ticker of the bar are checked; the others stay in
    /// the queue in their order. The result is that of `spec_scan` for some
    /// choice of identifiers for the positions that were opened.
    #[verifier::rlimit(50)]
    pub fn check_orders(&mut self, row: &Row) -> (logs: Vec<TradeLog>)
        requires
            old(self).wf(),
        ensures
            final(self).wf(),
            exists|ids: Seq<Seq<char>>|
                {
                    &&& ids.len() == old(self)@.pending_orders.len()
                    &&& (ScanResult { state: final(self)@, logs: logs_view(logs@) })
                        == #[trigger] spec_scan(old(self)@, old(self)@.pending_orders, *row, ids)
                },
    {
        let mut logs: Vec<TradeLog> = Vec::new();
        let mut queue: VecDeque<PendingOrder> = VecDeque::new();
        std::mem::swap(&mut queue, &mut self.pending_orders);
        let ghost s0 = old(self)@;
        let ghost q0 = s0.pending_orders;
        let ghost mut ids: Seq<Seq<char>> = Seq::empty();
        let ghost mut done: int = 0;
        proof {
            assert(pending_view(self.pending_orders@) =~= Seq::empty());
            assert(logs_view(logs@) =~= Seq::empty());
            assert(q0.take(0) =~= Seq::empty());
        }
        while queue.len() > 0
            invariant
                self.wf(),
                0 <= done <= q0.len(),
                ids.len() == done,
                pending_view(queue@) == q0.skip(done),
                (ScanResult { state: self@, logs: logs_view(logs@) }) == spec_scan(
                    s0,
                    q0.take(done),
                    *row,
                    ids,
                ),
            ensures
                queue@.len() == 0,
            decreases queue@.len(),
        {
            let ghost acc = ScanResult { state: self@, logs: logs_view(logs@) };
            let ghost kept0 = self.pending_orders@;
            let ghost logs0 = logs@;
            let ghost queue0 = queue@;
            let popped = queue.pop_front();
            let mut pending: PendingOrder = match popped {
                Some(p) => p,
                None => {
                    break ;
                },
            };
            let ghost item = pending@;
            let ghost mut id: Seq<char> = Seq::empty();
            proof {
                assert(pending_view(queue0).len() == queue0.len());
                assert(q0.skip(done).len() == q0.len() - done);
                assert(item == pending_view(queue0)[0]);
                assert(item == q0.skip(done)[0]);
                assert forall|i: int| 0 <= i < queue@.len() implies pending_view(queue@)[i]
                    == q0.skip(done + 1)[i] by {
                    assert(queue@[i] == queue0[i + 1]);
                    assert(pending_view(queue0)[i + 1] == q0.skip(done)[i + 1]);
                }
                assert(pending_view(queue@) =~= q0.skip(done + 1));
                assert(item == q0[done]);
                assert(q0.take(done + 1).drop_last() =~= q0.take(done));
                assert(q0.take(done + 1).last() == item);
            }
            if pending.ticker != row.ticker {
                self.pending_orders.push_back(pending);
                assert(pending_view(self.pending_orders@) =~= pending_view(kept0).push(item));
            } else {
                let was_completed: bool = pending.order.completed;
                match pending.order.check(row, &self.config.market_hours) {
                    Ok(_) => {
                        if pending.order.completed {
                            match pending.order.fill_price {
                                Some(fill_price) => {
                                    let ghost filled = pending@;
                                    let ghost before = self@;
                                    let outcome = self.execute_trade(pending, fill_price);
                                    proof {
                                        id = choose|id: Seq<char>|
                                            {
                                                &&& self@ == (#[trigger] spec_apply_fill(
                                                    before,
                                                    filled,
                                                    fill_price,
                                                    id,
                                                )).0
                                                &&& match outcome {
                                                    Some(log) => spec_apply_fill(
                                                        before,
                                                        filled,
                                                        fill_price,
                                                        id,
                                                    ).1 == Some(log@),
                                                    None => spec_apply_fill(
                                                        before,
                                                        filled,
                                                        fill_price,
                                                        id,
                                                    ).1.is_none(),
                                                }
                                            };
                                    }
                                    match outcome {
                                        Some(log) => {
                                            logs.push(log);
                                            assert(logs_view(logs@) =~= logs_view(logs0).push(
                                                log@,
                                            ));
                                        },
                                        None => {},
                                    }
                                },
                                None => {},
                            }
                        } else {
                            self.pending_orders.push_back(pending);
                            assert(pending_view(self.pending_orders@) =~= pending_view(kept0).push(
                                pending@,
                            ));
                        }
                    },
                    Err(_) => {
                        if !was_completed {
                            self.pending_orders.push_back(pending);
                            assert(pending_view(self.pending_orders@) =~= pending_view(kept0).push(
                                item,
                            ));
                        }
                    },
                }
            }
            proof {
                assert(ids.push(id).drop_last() =~= ids);
                ids = ids.push(id);
                done = done + 1;
            }
        }
        proof {
            assert(pending_view(queue@).len() == queue@.len());
            assert(q0.skip(done).len() == q0.len() - done);
            assert(q0.take(done) =~= q0);
        }
        logs
    }
}

/// Replacing a position by one with the same ticker keeps one position per
/// ticker.
proof fn lemma_update_keeps_one_per_ticker(
    positions: Seq<PositionView>,
    index: int,
    position: PositionView,
)
    requires
        one_per_ticker(positions),
        0 <= index < positions.len(),
        position.ticker == positions[index].ticker,
        position.state == PositionState::Open,
    ensures
        one_per_ticker(positions.update(index, position)),
{
    let after = positions.update(index, position);
    assert forall|i: int, j: int| 0 <= i < j < after.len() implies (#[trigger] after[i]).ticker != (
    #[trigger] after[j]).ticker by {
        assert(positions[i].ticker != positions[j].ticker);
    }
}

/// Adding a position in a ticker that has none keeps one position per ticker.
proof fn lemma_push_keeps_one_per_ticker(positions: Seq<PositionView>, position: PositionView)
    requires
        one_per_ticker(positions),
        !has_position(positions, position.ticker),
        position.state == PositionState::Open,
    ensures
        one_per_ticker(positions.push(position)),
{
    let after = positions.push(position);
    assert forall|i: int, j: int| 0 <= i < j < after.len() implies (#[trigger] after[i]).ticker != (
    #[trigger] after[j]).ticker by {
        if j < positions.len() {
            assert(positions[i].ticker != positions[j].ticker);
        } else {
            assert(positions[i].ticker != position.ticker);
        }
    }
}

/// Removing a position keeps one position per ticker.
proof fn lemma_remove_keeps_one_per_ticker(positions: Seq<PositionView>, index: int)
    requires
        one_per_ticker(positions),
        0 <= index < positions.len(),
    ensures
        one_per_ticker(positions.remove(index)),
{
    let after = positions.remove(index);
    assert forall|i: int, j: int| 0 <= i < j < after.len() implies (#[trigger] after[i]).ticker != (
    #[trigger] after[j]).ticker by {
        let a = if i < index {
            i
        } else {
            i + 1
        };
        let b = if j < index {
            j
        } else {
            j + 1
        };
        assert(after[i] == positions[a] && after[j] == positions[b]);
        assert(positions[a].ticker != positions[b].ticker);
    }
    assert forall|i: int| 0 <= i < after.len() implies (#[trigger] after[i]).state
        == PositionState::Open by {
        let a = if i < index {
            i
        } else {
            i + 1
        };
        assert(after[i] == positions[a]);
    }
}

/// Under the policy of replacing the oldest position, an order that cannot be
/// afforded is queued last, and the order that closes the oldest position,
/// which has a direction, is queued first.
pub proof fn lemma_replace_oldest_closes_first(s: PortfolioView, pending: PendingOrderView, i: int)
    requires
        s.config.replacement_strategy == ReplacementStrategy::ReplaceOldest,
        is_oldest(s.open_positions, i),
        s.open_positions[i].side != Side::Flat,
    ensures
        ({
            let queue = spec_replacement(s, pending);
            &&& queue.len() == s.pending_orders.len() + 2
            &&& queue[0].ticker == s.open_positions[i].ticker
            &&& queue[0].order.open_or_close == OrderAction::Close
            &&& queue[0].order.size == s.open_positions[i].size
            &&& queue[0].order.order_type.spec_is_buy() == (s.open_positions[i].side
                == Side::Short)
            &&& queue.last() == pending
            &&& forall|k: int|
                0 <= k < s.pending_orders.len() ==> #[trigger] queue[k + 1] == s.pending_orders[k]
        }),
{
    lemma_oldest_unique(s.open_positions, i);
}

/// Opening a long position that can be paid for and closing it at the price
/// it was opened at leaves the buying power and the open positions as they
/// were, and logs a trade without profit or loss.
pub proof fn lemma_round_trip_restores_buying_power(
    s: PortfolioView,
    opening: PendingOrderView,
    closing: PendingOrderView,
    price: i64,
    id: Seq<char>,
)
    requires
        opening.order.open_or_close == OrderAction::Open,
        opening.order.order_type.spec_is_buy(),
        closing.order.open_or_close == OrderAction::Close,
        closing.ticker == opening.ticker,
        !has_position(s.open_positions, opening.ticker),
        0 <= price * opening.order.fill_size <= s.buying_power,
    ensures
        ({
            let opened = spec_apply_fill(s, opening, price, id).0;
            let closed = spec_apply_fill(opened, closing, price, id);
            &&& closed.0.buying_power == s.buying_power
            &&& closed.0.open_positions == s.open_positions
            &&& closed.0.closed_positions.len() == s.closed_positions.len() + 1
            &&& closed.1.is_some()
            &&& closed.1.unwrap().pnl == 0
        }),
{
    let cost = price * opening.order.fill_size;
    let position = opened_position(opening, price, id);
    let opened = spec_apply_fill(s, opening, price, id).0;
    let n = s.open_positions.len() as int;
    assert(opened.open_positions == s.open_positions.push(position));
    assert(opened.open_positions[n].ticker == opening.ticker);
    assert(is_position_index(opened.open_positions, opening.ticker, n)) by {
        assert forall|j: int| 0 <= j < n implies (#[trigger] opened.open_positions[j]).ticker
            != opening.ticker by {
            assert(opened.open_positions[j] == s.open_positions[j]);
        }
    }
    lemma_position_index_unique(opened.open_positions, opening.ticker, n);
    assert(opened.open_positions.remove(n) =~= s.open_positions);
    assert((price - price) * position.size == 0) by (nonlinear_arith);
}

/// Processing signals leaves the positions and the buying power as they
/// were: only the queue changes.
pub proof fn lemma_submit_changes_the_queue_only(
    s: PortfolioView,
    signals: Seq<Signal>,
    price: i64,
    timestamp: i64,
    indicator_values: Seq<(Seq<char>, i64)>,
    strategy_name: Seq<char>,
)
    ensures
        spec_submit(s, signals, price, timestamp, indicator_values, strategy_name)
            == (PortfolioView {
            pending_orders: spec_submit(
                s,
                signals,
                price,
                timestamp,
                indicator_values,
                strategy_name,
            ).pending_orders,
            ..s
        }),
    decreases signals.len(),
{
    if signals.len() > 0 {
        lemma_submit_changes_the_queue_only(
            s,
            signals.drop_last(),
            price,
            timestamp,
            indicator_values,
            strategy_name,
        );
    }
}

/// The first index of a ticker is the only first index.
pub proof fn lemma_position_index_unique(positions: Seq<PositionView>, ticker: Seq<char>, i: int)
    requires
        is_position_index(positions, ticker, i),
    ensures
        has_position(positions, ticker),
        position_index(positions, ticker) == i,
{
    let k = position_index(positions, ticker);
    assert(is_position_index(positions, ticker, k));
    if k < i {
        assert(positions[k].ticker != ticker);
    }
    if i < k {
        assert(positions[i].ticker != ticker);
    }
}

/// There is one oldest position only.
pub proof fn lemma_oldest_unique(positions: Seq<PositionView>, i: int)
    requires
        is_oldest(positions, i),
    ensures
        (choose|k: int| is_oldest(positions, k)) == i,
{
    let k = choose|k: int| is_oldest(positions, k);
    if k < i {
        assert(positions[i].entry_timestamp < positions[k].entry_timestamp);
        assert(positions[k].entry_timestamp <= positions[i].entry_timestamp);
    }
    if i < k {
        assert(positions[k].entry_timestamp < positions[i].entry_timestamp);
        assert(positions[i].entry_timestamp <= positions[k].entry_timestamp);
    }
}

/// There is one newest position only.
pub proof fn lemma_newest_unique(positions: Seq<PositionView>, i: int)
    requires
        is_newest(positions, i),
    ensures
        (choose|k: int| is_newest(positions, k)) == i,
{
    let k = choose|k: int| is_newest(positions, k);
    if k < i {
        assert(positions[k].entry_timestamp > positions[i].entry_timestamp);
        assert(positions[i].entry_timestamp >= positions[k].entry_timestamp);
    }
    if i < k {
        assert(positions[i].entry_timestamp > positions[k].entry_timestamp);
        assert(positions[k].entry_timestamp >= positions[i].entry_timestamp);
    }
}

} // verus!
