use strategy_tester::backtest::portfolio::{PendingOrder, Portfolio};
use strategy_tester::backtest::signal::{Signal, SignalType};
use strategy_tester::config::{Config, ReplacementStrategy};
use strategy_tester::position::order::{
    Order, OrderAction, OrderDistance, OrderTimeline, OrderType,
};
use strategy_tester::position::position::{Position, PositionError, PositionState};
use strategy_tester::position::side::Side;
use strategy_tester::position::sizing::SizingStrategy;
use strategy_tester::position::strategy::Action;
use strategy_tester::types::log::TradeLog;
use strategy_tester::types::ohlcv::Row;

fn fx(x: f64) -> i64 {
    (x * 1_000_000.0).round() as i64
}

fn bar(ticker: &str, timestamp: i64, close: f64) -> Row {
    Row {
        timestamp,
        open: fx(close),
        high: fx(close + 1.0),
        low: fx(close - 1.0),
        close: fx(close),
        volume: 1_000,
        ticker: ticker.to_string(),
    }
}

fn config(shares: i64, policy: ReplacementStrategy) -> Config {
    Config {
        starting_buying_power: fx(100_000.0),
        sizing_strategy: SizingStrategy::Fixed(shares),
        replacement_strategy: policy,
        ..Config::default()
    }
}

fn signal(ticker: &str, order_type: OrderType) -> Signal {
    Signal::new_trigger(ticker.to_string(), order_type)
}

fn values() -> Vec<(String, i64)> {
    vec![("ma".to_string(), fx(1.5))]
}

#[test]
fn buying_and_selling_moves_the_buying_power() {
    let mut portfolio = Portfolio::new(&config(10, ReplacementStrategy::Cancel));
    assert_eq!(portfolio.buying_power, fx(100_000.0));

    portfolio.process_signal(&signal("AAPL", OrderType::MarketBuy()), fx(150.0), 1_000, &values(), "test");
    assert_eq!(portfolio.pending_orders.len(), 1);
    assert_eq!(portfolio.buying_power, fx(100_000.0));

    let logs = portfolio.check_orders(&bar("AAPL", 2_000, 150.0));
    assert_eq!(portfolio.buying_power, fx(98_500.0));
    assert_eq!(portfolio.pending_orders.len(), 0);
    assert_eq!(portfolio.open_positions.len(), 1);
    assert_eq!(logs.len(), 1);
    assert_eq!(logs[0].action, Action::Entry);
    assert_eq!(logs[0].pnl, 0);
    assert_eq!(logs[0].strategy_name, "test");
    assert_eq!(logs[0].condition_name, "OrderFilled");
    assert_eq!(logs[0].indicator_values, values());
    let opened = &portfolio.open_positions[0];
    assert_eq!(opened.ticker, "AAPL");
    assert_eq!(opened.side, Side::Long);
    assert_eq!(opened.size, 10);
    assert_eq!(opened.entry_price, fx(150.0));
    assert_eq!(opened.entry_timestamp, 1_000);
    assert_eq!(opened.state, PositionState::Open);
    assert_eq!(opened.id.len(), 36);
    assert_eq!(logs[0].position.id, opened.id);

    portfolio.process_signal(&signal("AAPL", OrderType::MarketSell()), fx(160.0), 3_000, &values(), "test");
    let logs = portfolio.check_orders(&bar("AAPL", 4_000, 160.0));
    assert_eq!(portfolio.buying_power, fx(100_100.0));
    assert_eq!(portfolio.open_positions.len(), 0);
    assert_eq!(portfolio.closed_positions.len(), 1);
    assert_eq!(logs.len(), 1);
    assert_eq!(logs[0].action, Action::Exit);
    assert_eq!(logs[0].pnl, fx(100.0));
    let closed = &portfolio.closed_positions[0];
    assert_eq!(closed.pnl(), Some(fx(100.0)));
    assert_eq!(closed.exit_price, Some(fx(160.0)));
    assert_eq!(closed.exit_timestamp, Some(3_000));
    assert_eq!(closed.state, PositionState::Closed);
}

#[test]
fn opening_a_short_credits_and_closing_it_debits() {
    let mut portfolio = Portfolio::new(&config(10, ReplacementStrategy::Cancel));
    portfolio.process_signal(&signal("AAPL", OrderType::MarketSell()), fx(150.0), 1, &values(), "s");
    portfolio.check_orders(&bar("AAPL", 2, 150.0));
    assert_eq!(portfolio.open_positions[0].side, Side::Short);
    assert_eq!(portfolio.buying_power, fx(101_500.0));
    portfolio.process_signal(&signal("AAPL", OrderType::MarketBuy()), fx(140.0), 3, &values(), "s");
    assert_eq!(portfolio.pending_orders[0].order.open_or_close, OrderAction::Close);
    let logs = portfolio.check_orders(&bar("AAPL", 4, 140.0));
    assert_eq!(portfolio.buying_power, fx(100_100.0));
    assert_eq!(logs[0].pnl, fx(100.0));
}

#[test]
fn a_signal_in_the_direction_of_the_position_does_nothing() {
    let mut portfolio = Portfolio::new(&config(10, ReplacementStrategy::Cancel));
    portfolio.process_signal(&signal("AAPL", OrderType::MarketBuy()), fx(150.0), 1, &values(), "s");
    portfolio.check_orders(&bar("AAPL", 2, 150.0));
    portfolio.process_signal(&signal("AAPL", OrderType::MarketBuy()), fx(150.0), 3, &values(), "s");
    assert_eq!(portfolio.pending_orders.len(), 0);
    portfolio.process_signal(&signal("AAPL", OrderType::AuctionOpen()), fx(150.0), 3, &values(), "s");
    portfolio.process_signal(&signal("MSFT", OrderType::AuctionClose()), fx(150.0), 3, &values(), "s");
    portfolio.process_signal(&Signal::new_value("MSFT".to_string(), fx(0.9)), fx(150.0), 3, &values(), "s");
    assert_eq!(portfolio.pending_orders.len(), 0);
    assert_eq!(Signal::new_value("X".to_string(), 7).signal_type, SignalType::Value(7));
}

#[test]
fn a_closing_order_takes_the_size_of_the_position() {
    let mut portfolio = Portfolio::new(&config(10, ReplacementStrategy::Cancel));
    portfolio.process_signal(&signal("AAPL", OrderType::MarketBuy()), fx(150.0), 1, &values(), "s");
    portfolio.check_orders(&bar("AAPL", 2, 150.0));
    portfolio.config.sizing_strategy = SizingStrategy::Fixed(3);
    portfolio.process_signal(&signal("AAPL", OrderType::MarketSell()), fx(150.0), 3, &values(), "s");
    assert_eq!(portfolio.pending_orders[0].order.size, 10);
}

#[test]
fn an_invalid_order_type_is_never_queued() {
    let mut portfolio = Portfolio::new(&config(10, ReplacementStrategy::Queue));
    let inverted = OrderType::StopLimitBuy(OrderDistance::Fixed(fx(2.0)), OrderDistance::Fixed(fx(1.0)));
    portfolio.process_signal(&signal("AAPL", inverted), fx(150.0), 1, &values(), "s");
    assert_eq!(portfolio.pending_orders.len(), 0);
    // nor is an order whose price needs an ATR
    let needs_atr = OrderType::LimitBuy(OrderDistance::ATR(fx(2.0)));
    portfolio.process_signal(&signal("AAPL", needs_atr), fx(150.0), 1, &values(), "s");
    assert_eq!(portfolio.pending_orders.len(), 0);
}

#[test]
fn orders_for_other_tickers_stay_in_the_queue() {
    let mut portfolio = Portfolio::new(&config(10, ReplacementStrategy::Cancel));
    portfolio.process_signal(&signal("AAPL", OrderType::MarketBuy()), fx(150.0), 1, &values(), "s");
    portfolio.process_signal(&signal("MSFT", OrderType::MarketBuy()), fx(300.0), 1, &values(), "s");
    portfolio.process_signal(&signal("GOOG", OrderType::MarketBuy()), fx(100.0), 1, &values(), "s");
    let logs = portfolio.check_orders(&bar("MSFT", 2, 301.0));
    assert_eq!(logs.len(), 1);
    assert_eq!(logs[0].position.ticker, "MSFT");
    let left: Vec<&str> = portfolio.pending_orders.iter().map(|p| p.ticker.as_str()).collect();
    assert_eq!(left, vec!["AAPL", "GOOG"]);
    assert_eq!(portfolio.buying_power, fx(100_000.0 - 3_010.0));
}

#[test]
fn unaffordable_orders_follow_the_replacement_policy() {
    let expensive = fx(20_000.0);
    for policy in [
        ReplacementStrategy::Cancel,
        ReplacementStrategy::Queue,
        ReplacementStrategy::ReplaceSignal,
        ReplacementStrategy::ReplaceOldest,
        ReplacementStrategy::ReplaceNewest,
    ] {
        let mut portfolio = Portfolio::new(&config(10, policy));
        portfolio.process_signal(&signal("AAPL", OrderType::MarketBuy()), expensive, 1, &values(), "s");
        let queued = portfolio.pending_orders.len();
        match policy {
            ReplacementStrategy::Queue | ReplacementStrategy::ReplaceSignal => assert_eq!(queued, 1),
            // nothing to replace: the order is dropped
            _ => assert_eq!(queued, 0),
        }
    }
    // an order that costs exactly the buying power is affordable
    let mut portfolio = Portfolio::new(&config(10, ReplacementStrategy::Cancel));
    portfolio.process_signal(&signal("AAPL", OrderType::MarketBuy()), fx(10_000.0), 1, &values(), "s");
    assert_eq!(portfolio.pending_orders.len(), 1);
}

fn with_two_positions(policy: ReplacementStrategy) -> Portfolio {
    let mut portfolio = Portfolio::new(&config(10, policy));
    portfolio.process_signal(&signal("OLD", OrderType::MarketBuy()), fx(100.0), 10, &values(), "s");
    portfolio.check_orders(&bar("OLD", 11, 100.0));
    portfolio.process_signal(&signal("NEW", OrderType::MarketSell()), fx(100.0), 20, &values(), "s");
    portfolio.check_orders(&bar("NEW", 21, 100.0));
    portfolio.process_signal(&signal("WAIT", OrderType::LimitBuy(OrderDistance::Fixed(1))), fx(1.0), 25, &values(), "s");
    assert_eq!(portfolio.open_positions.len(), 2);
    assert_eq!(portfolio.pending_orders.len(), 1);
    portfolio
}

#[test]
fn replace_oldest_queues_the_close_before_the_new_order() {
    let mut portfolio = with_two_positions(ReplacementStrategy::ReplaceOldest);
    portfolio.process_signal(&signal("BIG", OrderType::MarketBuy()), fx(50_000.0), 30, &values(), "strategy");
    let queue: Vec<&PendingOrder> = portfolio.pending_orders.iter().collect();
    assert_eq!(queue.len(), 3);
    assert_eq!(queue[0].ticker, "OLD");
    assert_eq!(queue[0].order.open_or_close, OrderAction::Close);
    assert_eq!(queue[0].order.order_type, OrderType::MarketSell());
    assert_eq!(queue[0].order.size, 10);
    assert_eq!(queue[0].order.timestamp, 30);
    assert_eq!(queue[0].order.good_until, OrderTimeline::EOD);
    assert_eq!(queue[0].strategy_name, "Replacement");
    assert!(queue[0].indicator_values.is_empty());
    assert_eq!(queue[1].ticker, "WAIT");
    assert_eq!(queue[2].ticker, "BIG");
    assert_eq!(queue[2].order.open_or_close, OrderAction::Open);
    assert_eq!(queue[2].strategy_name, "strategy");
    assert_eq!(portfolio.get_oldest_position_ticker(), Some("OLD".to_string()));
    assert_eq!(portfolio.get_newest_position_ticker(), Some("NEW".to_string()));
}

#[test]
fn replace_newest_closes_the_latest_entry() {
    let mut portfolio = with_two_positions(ReplacementStrategy::ReplaceNewest);
    portfolio.process_signal(&signal("BIG", OrderType::MarketBuy()), fx(50_000.0), 30, &values(), "strategy");
    let queue: Vec<&PendingOrder> = portfolio.pending_orders.iter().collect();
    assert_eq!(queue.len(), 3);
    assert_eq!(queue[0].ticker, "NEW");
    assert_eq!(queue[0].order.order_type, OrderType::MarketBuy());
    assert_eq!(queue[0].order.open_or_close, OrderAction::Close);
    assert_eq!(queue[2].ticker, "BIG");
}

#[test]
fn a_fill_that_can_no_longer_be_afforded_is_dropped() {
    let mut portfolio = Portfolio::new(&config(10, ReplacementStrategy::Cancel));
    portfolio.process_signal(&signal("AAPL", OrderType::MarketBuy()), fx(6_000.0), 1, &values(), "s");
    portfolio.process_signal(&signal("AAPL", OrderType::MarketBuy()), fx(6_000.0), 1, &values(), "s");
    assert_eq!(portfolio.pending_orders.len(), 2);
    let logs = portfolio.check_orders(&bar("AAPL", 2, 6_000.0));
    assert_eq!(logs.len(), 1);
    assert_eq!(portfolio.pending_orders.len(), 0);
    assert_eq!(portfolio.open_positions.len(), 1);
    assert_eq!(portfolio.buying_power, fx(40_000.0));
}

#[test]
fn a_close_without_a_position_is_dropped() {
    let mut portfolio = Portfolio::new(&config(10, ReplacementStrategy::Cancel));
    let order = Order::new(OrderType::MarketSell(), OrderAction::Close, 1, None, 10).unwrap();
    portfolio.pending_orders.push_back(PendingOrder {
        order,
        ticker: "AAPL".to_string(),
        strategy_name: "s".to_string(),
        indicator_values: Vec::new(),
    });
    let logs = portfolio.check_orders(&bar("AAPL", 2, 10.0));
    assert!(logs.is_empty());
    assert_eq!(portfolio.pending_orders.len(), 0);
    assert_eq!(portfolio.buying_power, fx(100_000.0));
}

#[test]
fn apply_fill_uses_the_identifier_it_is_given() {
    let mut portfolio = Portfolio::new(&config(10, ReplacementStrategy::Cancel));
    let mut order = Order::new(OrderType::MarketBuy(), OrderAction::Open, 5, None, 4).unwrap();
    order.fill_size = 4;
    let pending = PendingOrder {
        order,
        ticker: "AAPL".to_string(),
        strategy_name: "s".to_string(),
        indicator_values: values(),
    };
    let log: TradeLog = portfolio.apply_fill(pending, fx(25.0), "position-1".to_string()).unwrap();
    assert_eq!(log.position.id, "position-1");
    assert_eq!(portfolio.open_positions[0].id, "position-1");
    assert_eq!(portfolio.buying_power, fx(99_900.0));
    assert_eq!(portfolio.find_open(&"AAPL".to_string()), Some(0));
    assert_eq!(portfolio.find_open(&"MSFT".to_string()), None);
    portfolio.update_prices("AAPL", fx(30.0));
    assert_eq!(portfolio.buying_power, fx(99_900.0));
}

#[test]
fn expired_orders_leave_the_queue_without_a_trade() {
    let mut portfolio = Portfolio::new(&config(10, ReplacementStrategy::Cancel));
    let unreachable = OrderType::LimitBuy(OrderDistance::Fixed(1));
    portfolio.process_signal(&signal("AAPL", unreachable), fx(10.0), 1, &values(), "s");
    assert!(portfolio.check_orders(&bar("AAPL", 2, 10.0)).is_empty());
    assert_eq!(portfolio.pending_orders.len(), 1);
    let next_day = 2 * 86_400_000_000_000;
    assert!(portfolio.check_orders(&bar("AAPL", next_day, 10.0)).is_empty());
    assert_eq!(portfolio.pending_orders.len(), 0);
}

#[test]
fn round_trip_at_the_same_price_has_no_profit_or_loss() {
    for side in [Side::Long, Side::Short, Side::Flat] {
        for size in [1, 10, -3, i64::MAX] {
            let mut position =
                Position::new("id".to_string(), "AAPL".to_string(), side, size, fx(123.45), 1);
            assert_eq!(position.pnl(), None);
            assert_eq!(position.pnl_percent(), None);
            assert_eq!(position.unrealized_pnl(fx(123.45)), 0);
            assert!(position.close(fx(123.45), 2).is_ok());
            assert_eq!(position.pnl(), Some(0));
            assert_eq!(position.pnl_percent(), Some(0));
        }
    }
}

#[test]
fn position_profit_and_loss() {
    let mut long = Position::new("a".to_string(), "AAPL".to_string(), Side::Long, 10, fx(150.0), 1);
    assert_eq!(long.unrealized_pnl(fx(160.0)), fx(100.0));
    assert_eq!(long.unrealized_pnl(fx(140.0)), fx(-100.0));
    assert!(long.close(fx(165.0), 9).is_ok());
    assert_eq!(long.pnl(), Some(fx(150.0)));
    assert_eq!(long.pnl_percent(), Some(fx(10.0)));
    assert!(matches!(long.close(fx(1.0), 10), Err(PositionError::AlreadyClosed)));
    assert_eq!(long.exit_price, Some(fx(165.0)));
    assert_eq!(long.exit_timestamp, Some(9));

    let mut short = Position::new("b".to_string(), "AAPL".to_string(), Side::Short, 10, fx(150.0), 1);
    assert_eq!(short.unrealized_pnl(fx(160.0)), fx(-100.0));
    assert!(short.close(fx(120.0), 9).is_ok());
    assert_eq!(short.pnl(), Some(fx(300.0)));
    assert_eq!(short.pnl_percent(), Some(fx(20.0)));

    let mut flat = Position::new("c".to_string(), "AAPL".to_string(), Side::Flat, 10, fx(150.0), 1);
    assert!(flat.close(fx(120.0), 9).is_ok());
    assert_eq!(flat.pnl(), Some(0));

    let mut free = Position::new("d".to_string(), "AAPL".to_string(), Side::Long, 10, 0, 1);
    assert!(free.close(fx(1.0), 2).is_ok());
    assert_eq!(free.pnl_percent(), None);
    assert_eq!(free.duplicate().pnl(), Some(fx(10.0)));

    // a profit beyond the range saturates
    let huge = Position::new("e".to_string(), "AAPL".to_string(), Side::Long, i64::MAX, i64::MIN, 1);
    assert_eq!(huge.unrealized_pnl(i64::MAX), i64::MAX);
    assert_eq!(Side::to_string(&Side::Long), "long");
    assert_eq!(Side::to_string(&Side::Short), "short");
    assert_eq!(Side::to_string(&Side::Flat), "none");
}

#[test]
fn sizing_strategies() {
    let price = fx(50.0);
    let account = fx(10_000.0);
    assert_eq!(SizingStrategy::Fixed(7).calculate(price, account, None), 7);
    assert_eq!(SizingStrategy::FixedDollar(fx(1_020.0)).calculate(price, account, None), 20);
    assert_eq!(SizingStrategy::FixedDollar(fx(1_020.0)).calculate(0, account, None), i64::MAX);
    assert_eq!(SizingStrategy::FixedDollar(fx(-1.0)).calculate(0, account, None), i64::MIN);
    assert_eq!(SizingStrategy::FixedDollar(0).calculate(0, account, None), 0);
    assert_eq!(SizingStrategy::PercentOfAccount(fx(2.0)).calculate(price, account, None), 4);
    assert_eq!(
        SizingStrategy::RiskBased { risk_percent: fx(1.0), stop_distance: fx(0.02) }
            .calculate(price, account, None),
        2
    );
    let s = Signal::new_value("AAPL".to_string(), 1);
    assert_eq!(SizingStrategy::SignalBased.calculate(price, account, Some(&s)), 0);
}

#[test]
fn default_configuration() {
    let config = Config::default();
    assert_eq!(config.starting_buying_power, fx(100_000.0));
    assert_eq!(config.slippage, fx(0.001));
    assert_eq!(config.replacement_strategy, ReplacementStrategy::Cancel);
    assert_eq!(config.sizing_strategy, SizingStrategy::Fixed(100));
    assert_eq!(
        config.max_position_time,
        Some(strategy_tester::indicators::window::Window::Days(30))
    );
    assert!(!config.market_hours.include_premarket);
    assert!(!config.market_hours.include_postmarket);
    let portfolio = Portfolio::new(&config);
    assert_eq!(portfolio.buying_power, fx(100_000.0));
    assert!(portfolio.open_positions.is_empty());
    assert!(portfolio.closed_positions.is_empty());
    assert!(portfolio.pending_orders.is_empty());
    assert_eq!(portfolio.get_oldest_position_ticker(), None);
    assert_eq!(portfolio.get_newest_position_ticker(), None);
}

#[test]
fn a_trade_log_carries_the_realized_profit() {
    let mut position = Position::new("id".to_string(), "AAPL".to_string(), Side::Long, 4, fx(10.0), 1);
    let open_log = TradeLog::new(
        position.clone(),
        Action::Entry,
        "s".to_string(),
        "c".to_string(),
        strategy_tester::types::log::clone_values(&values()),
    );
    assert_eq!(open_log.pnl, 0);
    assert_eq!(open_log.indicator_values, values());
    position.close(fx(12.5), 2).unwrap();
    let exit_log = TradeLog::new(position, Action::Exit, "s".to_string(), "c".to_string(), Vec::new());
    assert_eq!(exit_log.pnl, fx(10.0));
    assert_eq!(exit_log.strategy_name, "s");
    assert_eq!(exit_log.condition_name, "c");
}

#[test]
fn signals_are_processed_in_order() {
    let mut portfolio = Portfolio::new(&config(10, ReplacementStrategy::Cancel));
    let signals = vec![
        signal("AAPL", OrderType::MarketBuy()),
        signal("MSFT", OrderType::MarketSell()),
        Signal::new_value("GOOG".to_string(), 3),
    ];
    portfolio.process_signals(&signals, fx(10.0), 7, &values(), "batch");
    let queued: Vec<(&str, OrderAction, bool)> = portfolio
        .pending_orders
        .iter()
        .map(|p| (p.ticker.as_str(), p.order.open_or_close, p.order.order_type.is_buy()))
        .collect();
    assert_eq!(
        queued,
        vec![("AAPL", OrderAction::Open, true), ("MSFT", OrderAction::Open, false)]
    );
    assert_eq!(portfolio.pending_orders[0].order.timestamp, 7);
    assert_eq!(portfolio.pending_orders[0].order.size, 10);
}

#[test]
fn a_second_fill_in_a_ticker_takes_the_place_of_the_position() {
    let mut portfolio = Portfolio::new(&config(10, ReplacementStrategy::Cancel));
    portfolio.process_signal(&signal("AAPL", OrderType::MarketBuy()), fx(10.0), 1, &values(), "s");
    portfolio.process_signal(&signal("MSFT", OrderType::MarketBuy()), fx(10.0), 2, &values(), "s");
    portfolio.process_signal(&signal("AAPL", OrderType::MarketSell()), fx(10.0), 3, &values(), "s");
    assert_eq!(portfolio.pending_orders.len(), 3);
    let logs = portfolio.check_orders(&bar("AAPL", 4, 10.0));
    assert_eq!(logs.len(), 2);
    assert_eq!(portfolio.open_positions.len(), 1);
    assert_eq!(portfolio.open_positions[0].ticker, "AAPL");
    assert_eq!(portfolio.open_positions[0].side, Side::Short);
    assert_eq!(portfolio.open_positions[0].entry_timestamp, 3);
    // 100 debited for the long, 100 credited for the short
    assert_eq!(portfolio.buying_power, fx(100_000.0));
    assert_eq!(portfolio.pending_orders.len(), 1);
    portfolio.check_orders(&bar("MSFT", 5, 10.0));
    let tickers: Vec<&str> = portfolio.open_positions.iter().map(|p| p.ticker.as_str()).collect();
    assert_eq!(tickers, vec!["AAPL", "MSFT"]);
}
