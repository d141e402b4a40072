use strategy_tester::config::MarketHours;
use strategy_tester::fixed::SCALE;
use strategy_tester::position::order::{
    Order, OrderAction, OrderDistance, OrderError, OrderTimeline, OrderType, VALIDATION_PRICE,
};
use strategy_tester::types::ohlcv::Row;
use strategy_tester::utils::time::{
    apply_time_to_timestamp, get_mc_timestamp, get_mo_timestamp, get_pmc_timestamp,
    get_pmo_timestamp, NANOS_PER_DAY, NANOS_PER_HOUR, NANOS_PER_MINUTE, NANOS_PER_SECOND,
};
use strategy_tester::indicators::time::TimeOfDay;

fn fx(x: f64) -> i64 {
    (x * 1_000_000.0).round() as i64
}

fn bar(timestamp: i64, open: f64, high: f64, low: f64, close: f64) -> Row {
    Row {
        timestamp,
        open: fx(open),
        high: fx(high),
        low: fx(low),
        close: fx(close),
        volume: 1_000,
        ticker: "TEST".to_string(),
    }
}

fn pending(order_type: OrderType) -> Order {
    Order::new(order_type, OrderAction::Open, 0, Some(OrderTimeline::GTC), 10).unwrap()
}

#[test]
fn new_order_is_pending_and_defaults_to_end_of_day() {
    let order = Order::new(OrderType::MarketBuy(), OrderAction::Open, 42, None, 7).unwrap();
    assert_eq!(order.order_type, OrderType::MarketBuy());
    assert_eq!(order.open_or_close, OrderAction::Open);
    assert_eq!(order.timestamp, 42);
    assert_eq!(order.good_until, OrderTimeline::EOD);
    assert_eq!(order.size, 7);
    assert_eq!(order.fill_size, 0);
    assert_eq!(order.fill_price, None);
    assert!(!order.completed);
}

#[test]
fn market_orders_fill_at_the_close() {
    let hours = MarketHours::default();
    for order_type in [OrderType::MarketBuy(), OrderType::MarketSell()] {
        let mut order = pending(order_type);
        assert_eq!(order.check(&bar(1, 100.0, 105.0, 95.0, 101.0), &hours), Ok(()));
        assert_eq!(order.fill_price, Some(fx(101.0)));
        assert_eq!(order.fill_size, 10);
        assert!(order.completed);
    }
}

#[test]
fn checking_a_completed_or_filled_order_is_an_error() {
    let hours = MarketHours::default();
    let row = bar(1, 100.0, 105.0, 95.0, 101.0);
    let mut order = pending(OrderType::MarketBuy());
    order.check(&row, &hours).unwrap();
    let filled = order;
    assert_eq!(order.check(&row, &hours), Err(OrderError::AlreadyCompleted));
    assert_eq!(order, filled);
    let mut odd = pending(OrderType::MarketBuy());
    odd.fill_price = Some(1);
    assert_eq!(odd.check(&row, &hours), Err(OrderError::AlreadyFilled));
    assert!(!odd.completed);
}

#[test]
fn limit_and_stop_orders_fill_only_when_the_bar_reaches_the_price() {
    let hours = MarketHours::default();
    let row = bar(1, 100.0, 105.0, 95.0, 100.0);
    let cases: Vec<(OrderType, Option<f64>)> = vec![
        (OrderType::LimitBuy(OrderDistance::Fixed(fx(96.0))), Some(95.0)),
        (OrderType::LimitBuy(OrderDistance::Fixed(fx(94.0))), None),
        (OrderType::LimitBuy(OrderDistance::Fixed(fx(95.0))), Some(95.0)),
        (OrderType::LimitSell(OrderDistance::Fixed(fx(104.0))), Some(105.0)),
        (OrderType::LimitSell(OrderDistance::Fixed(fx(106.0))), None),
        (OrderType::StopMarketBuy(OrderDistance::Fixed(fx(105.0))), Some(105.0)),
        (OrderType::StopMarketBuy(OrderDistance::Fixed(fx(105.5))), None),
        (OrderType::StopMarketSell(OrderDistance::Fixed(fx(95.0))), Some(95.0)),
        (OrderType::StopMarketSell(OrderDistance::Fixed(fx(94.5))), None),
        (
            OrderType::StopLimitBuy(
                OrderDistance::Fixed(fx(104.0)),
                OrderDistance::Fixed(fx(104.5)),
            ),
            Some(104.5),
        ),
        (
            OrderType::StopLimitBuy(
                OrderDistance::Fixed(fx(90.0)),
                OrderDistance::Fixed(fx(94.0)),
            ),
            None,
        ),
        (
            OrderType::StopLimitBuy(
                OrderDistance::Fixed(fx(106.0)),
                OrderDistance::Fixed(fx(107.0)),
            ),
            None,
        ),
        (
            OrderType::StopLimitSell(
                OrderDistance::Fixed(fx(96.0)),
                OrderDistance::Fixed(fx(95.5)),
            ),
            Some(95.5),
        ),
        (
            OrderType::StopLimitSell(
                OrderDistance::Fixed(fx(110.0)),
                OrderDistance::Fixed(fx(106.0)),
            ),
            None,
        ),
        // a limit beyond the bar fills at the end of the bar
        (
            OrderType::StopLimitBuy(
                OrderDistance::Fixed(fx(96.0)),
                OrderDistance::Fixed(fx(200.0)),
            ),
            Some(105.0),
        ),
        (
            OrderType::StopLimitSell(
                OrderDistance::Fixed(fx(96.0)),
                OrderDistance::Fixed(fx(50.0)),
            ),
            Some(95.0),
        ),
        (
            OrderType::StopLimitBuy(
                OrderDistance::Fixed(fx(105.0)),
                OrderDistance::Fixed(fx(105.0)),
            ),
            Some(105.0),
        ),
        (
            OrderType::StopLimitSell(
                OrderDistance::Fixed(fx(95.0)),
                OrderDistance::Fixed(fx(95.0)),
            ),
            Some(95.0),
        ),
        (OrderType::AuctionOpen(), None),
        (OrderType::AuctionClose(), None),
    ];
    for (order_type, expected) in cases {
        let mut order = pending(order_type);
        assert_eq!(order.check(&row, &hours), Ok(()));
        assert_eq!(order.fill_price, expected.map(fx), "{:?}", order_type);
        assert_eq!(order.completed, expected.is_some());
        assert_eq!(order.fill_size, if expected.is_some() { 10 } else { 0 });
        assert_eq!(order_type.fill(&row), Ok(expected.map(fx)));
        if let Some(price) = order.fill_price {
            assert!(row.low <= price && price <= row.high, "{:?}", order_type);
        }
    }
}

#[test]
fn distances_from_the_current_price() {
    let buy = OrderType::LimitBuy(OrderDistance::Fixed(0));
    let sell = OrderType::LimitSell(OrderDistance::Fixed(0));
    let price = fx(200.0);
    assert_eq!(OrderDistance::Fixed(fx(3.0)).calculate(price, buy, None), Ok(fx(3.0)));
    assert_eq!(OrderDistance::Percent(fx(5.0)).calculate(price, buy, None), Ok(fx(210.0)));
    assert_eq!(OrderDistance::Percent(fx(5.0)).calculate(price, sell, None), Ok(fx(190.0)));
    assert_eq!(OrderDistance::Percent(fx(0.5)).calculate(fx(1.0), sell, None), Ok(fx(0.995)));
    assert_eq!(OrderDistance::Points(fx(1.25)).calculate(price, buy, None), Ok(fx(201.25)));
    assert_eq!(OrderDistance::Points(fx(1.25)).calculate(price, sell, None), Ok(fx(198.75)));
    assert_eq!(
        OrderDistance::ATR(fx(2.0)).calculate(price, buy, Some(fx(1.5))),
        Ok(fx(203.0))
    );
    assert_eq!(
        OrderDistance::ATR(fx(2.0)).calculate(price, sell, Some(fx(1.5))),
        Ok(fx(197.0))
    );
    assert_eq!(
        OrderDistance::ATR(fx(2.0)).calculate(price, buy, None),
        Err(OrderError::ATRRequired)
    );
    // results saturate at the ends of the range
    assert_eq!(OrderDistance::Points(i64::MAX).calculate(price, buy, None), Ok(i64::MAX));
    assert_eq!(OrderDistance::Points(i64::MAX).calculate(-price, sell, None), Ok(i64::MIN));
    // a rounded-down percentage
    assert_eq!(OrderDistance::Percent(fx(1.0)).calculate(33, buy, None), Ok(33));
    assert_eq!(OrderDistance::Percent(fx(1.0)).calculate(-33, buy, None), Ok(-34));
}

#[test]
fn buy_and_sell_types() {
    let d = OrderDistance::Fixed(1);
    let buys = [
        OrderType::MarketBuy(),
        OrderType::LimitBuy(d),
        OrderType::StopMarketBuy(d),
        OrderType::StopLimitBuy(d, d),
    ];
    let sells = [
        OrderType::MarketSell(),
        OrderType::LimitSell(d),
        OrderType::StopMarketSell(d),
        OrderType::StopLimitSell(d, d),
    ];
    for t in buys {
        assert!(t.is_buy() && !t.is_sell());
    }
    for t in sells {
        assert!(t.is_sell() && !t.is_buy());
    }
    for t in [OrderType::AuctionOpen(), OrderType::AuctionClose()] {
        assert!(!t.is_buy() && !t.is_sell());
    }
}

#[test]
fn stop_limit_orders_are_validated_at_construction() {
    let low = OrderDistance::Fixed(fx(90.0));
    let high = OrderDistance::Fixed(fx(110.0));
    assert!(Order::new(OrderType::StopLimitBuy(low, high), OrderAction::Open, 0, None, 1).is_ok());
    assert!(Order::new(OrderType::StopLimitBuy(low, low), OrderAction::Open, 0, None, 1).is_ok());
    assert_eq!(
        Order::new(OrderType::StopLimitBuy(high, low), OrderAction::Open, 0, None, 1),
        Err(OrderError::InvalidOrder)
    );
    assert!(Order::new(OrderType::StopLimitSell(high, low), OrderAction::Open, 0, None, 1).is_ok());
    assert_eq!(
        Order::new(OrderType::StopLimitSell(low, high), OrderAction::Open, 0, None, 1),
        Err(OrderError::InvalidOrder)
    );
    // distances relative to the price are validated at the validation price
    assert_eq!(VALIDATION_PRICE, 100 * SCALE);
    let up = OrderDistance::Percent(fx(5.0));
    let down = OrderDistance::Points(fx(-5.0));
    assert_eq!(OrderType::StopLimitBuy(up, down).validate(VALIDATION_PRICE), Err(OrderError::InvalidOrder));
    assert_eq!(OrderType::StopLimitBuy(down, up).validate(VALIDATION_PRICE), Ok(()));
    // an ATR distance cannot be priced at construction
    let atr = OrderDistance::ATR(fx(2.0));
    assert_eq!(
        Order::new(OrderType::StopLimitBuy(atr, high), OrderAction::Open, 0, None, 1),
        Err(OrderError::ATRRequired)
    );
    assert_eq!(
        Order::new(OrderType::StopLimitSell(high, atr), OrderAction::Open, 0, None, 1),
        Err(OrderError::ATRRequired)
    );
    for order_type in [
        OrderType::LimitBuy(atr),
        OrderType::LimitSell(atr),
        OrderType::StopMarketBuy(atr),
        OrderType::StopMarketSell(atr),
        OrderType::StopLimitBuy(high, atr),
        OrderType::StopLimitSell(atr, low),
        OrderType::StopLimitBuy(atr, atr),
    ] {
        assert_eq!(order_type.validate(VALIDATION_PRICE), Err(OrderError::ATRRequired));
        assert_eq!(order_type.validate(1), Err(OrderError::ATRRequired));
        assert_eq!(
            Order::new(order_type, OrderAction::Open, 0, Some(OrderTimeline::GTC), 1),
            Err(OrderError::ATRRequired)
        );
    }
    // every other distance can be priced at construction
    for (distance, other) in [
        (OrderDistance::Fixed(fx(1.0)), OrderDistance::Fixed(fx(1.0))),
        (OrderDistance::Percent(fx(1.0)), OrderDistance::Percent(fx(1.0))),
        (OrderDistance::Points(fx(1.0)), OrderDistance::Points(fx(1.0))),
    ] {
        for order_type in [
            OrderType::LimitBuy(distance),
            OrderType::LimitSell(distance),
            OrderType::StopMarketBuy(distance),
            OrderType::StopMarketSell(distance),
            OrderType::StopLimitBuy(distance, other),
            OrderType::StopLimitSell(distance, other),
        ] {
            assert!(Order::new(order_type, OrderAction::Open, 0, None, 1).is_ok());
        }
    }
    // an order put together by hand around an ATR distance fails its check
    // and stays as it was
    let mut order = Order {
        order_type: OrderType::LimitBuy(atr),
        ..Order::new(OrderType::MarketBuy(), OrderAction::Open, 0, Some(OrderTimeline::GTC), 1)
            .unwrap()
    };
    let before = order;
    assert_eq!(
        order.check(&bar(1, 1.0, 1.0, 1.0, 1.0), &MarketHours::default()),
        Err(OrderError::ATRRequired)
    );
    assert_eq!(order, before);
}

#[test]
fn end_of_day_orders_expire_after_the_close_of_their_day() {
    let hours = MarketHours::default();
    let submitted = 3 * NANOS_PER_DAY + 10 * NANOS_PER_HOUR;
    let close = 3 * NANOS_PER_DAY + 16 * NANOS_PER_HOUR;
    assert_eq!(get_mc_timestamp(submitted, &hours), close);
    let unreachable = OrderType::LimitBuy(OrderDistance::Fixed(fx(1.0)));

    let mut order = Order::new(unreachable, OrderAction::Open, submitted, None, 5).unwrap();
    assert_eq!(order.check(&bar(close, 100.0, 101.0, 99.0, 100.0), &hours), Ok(()));
    assert!(!order.completed);
    assert_eq!(order.check(&bar(close + 1, 100.0, 101.0, 99.0, 100.0), &hours), Ok(()));
    assert!(order.completed);
    assert_eq!(order.fill_price, None);
    assert_eq!(order.fill_size, 0);

    // an expired order does not fill even if the bar would fill it
    let mut market = Order::new(OrderType::MarketBuy(), OrderAction::Open, submitted, None, 5).unwrap();
    assert_eq!(market.check(&bar(close + NANOS_PER_DAY, 1.0, 1.0, 1.0, 1.0), &hours), Ok(()));
    assert!(market.completed);
    assert_eq!(market.fill_price, None);

    // good-till-cancelled orders never expire
    let mut gtc = Order::new(unreachable, OrderAction::Open, submitted, Some(OrderTimeline::GTC), 5).unwrap();
    assert_eq!(gtc.check(&bar(close + 400 * NANOS_PER_DAY, 100.0, 101.0, 99.0, 100.0), &hours), Ok(()));
    assert!(!gtc.completed);
}

#[test]
fn session_boundaries_of_the_day_of_a_timestamp() {
    let hours = MarketHours::default();
    let day = 20_000 * NANOS_PER_DAY;
    let noon = day + 12 * NANOS_PER_HOUR + 34 * NANOS_PER_MINUTE + 56 * NANOS_PER_SECOND + 789;
    assert_eq!(get_mo_timestamp(noon, &hours), day + 9 * NANOS_PER_HOUR + 30 * NANOS_PER_MINUTE);
    assert_eq!(get_mc_timestamp(noon, &hours), day + 16 * NANOS_PER_HOUR);
    assert_eq!(get_pmo_timestamp(noon, &hours), day + 4 * NANOS_PER_HOUR);
    assert_eq!(get_pmc_timestamp(noon, &hours), day + 20 * NANOS_PER_HOUR);
    assert_eq!(
        apply_time_to_timestamp(noon, TimeOfDay::new(23, 59, 59)),
        day + NANOS_PER_DAY - NANOS_PER_SECOND
    );
    // before the epoch the day still starts at its midnight
    assert_eq!(apply_time_to_timestamp(-1, TimeOfDay::new(0, 0, 1)), -NANOS_PER_DAY + NANOS_PER_SECOND);
    // the ends of the range saturate
    assert_eq!(apply_time_to_timestamp(i64::MIN, TimeOfDay::new(0, 0, 0)), i64::MIN);
    assert_eq!(apply_time_to_timestamp(i64::MAX, TimeOfDay::new(23, 59, 59)), i64::MAX);
}

#[test]
fn market_hours_sessions() {
    let hours = MarketHours::default();
    assert_eq!(hours.earliest_valid_time(), TimeOfDay::new(9, 30, 0));
    assert_eq!(hours.latest_valid_time(), TimeOfDay::new(16, 0, 0));
    assert!(hours.is_valid_time(TimeOfDay::new(9, 30, 0)));
    assert!(hours.is_valid_time(TimeOfDay::new(16, 0, 0)));
    assert!(!hours.is_valid_time(TimeOfDay::new(9, 29, 59)));
    assert!(!hours.is_valid_time(TimeOfDay::new(16, 0, 1)));
    let extended = MarketHours { include_premarket: true, include_postmarket: true, ..hours };
    assert_eq!(extended.earliest_valid_time(), TimeOfDay::new(4, 0, 0));
    assert_eq!(extended.latest_valid_time(), TimeOfDay::new(20, 0, 0));
    assert!(extended.is_valid_time(TimeOfDay::new(4, 0, 0)));
    assert!(!extended.is_valid_time(TimeOfDay::new(20, 0, 1)));
    assert_eq!(TimeOfDay::market_open(), TimeOfDay::new(9, 30, 0));
    assert_eq!(TimeOfDay::market_close(), TimeOfDay::new(16, 0, 0));
    assert_eq!(TimeOfDay::pre_market_close(), TimeOfDay::new(9, 29, 59));
    assert_eq!(TimeOfDay::last_minute(), TimeOfDay::new(15, 59, 59));
    assert_eq!(TimeOfDay::new(1, 2, 3).seconds(), 3723);
    assert!(TimeOfDay::new(23, 59, 59).is_valid());
    assert!(!TimeOfDay::new(24, 0, 0).is_valid());
}
