use strategy_tester::fixed::SCALE;
use strategy_tester::indicators::fields::{CommonField, PriceField};
use strategy_tester::indicators::indicator::Indicator;
use strategy_tester::indicators::indicators::acv::timestamp_to_interval;
use strategy_tester::indicators::indicators::{
    HighOfPeriod, LowOfPeriod, Momentum, MovingAverage, ACV, ADV, RSI, VWAP,
};
use strategy_tester::indicators::time::TimeOfDay;
use strategy_tester::indicators::window::Window;
use strategy_tester::types::ohlcv::{DataWindow, Row, OHLCV};

const MINUTE: i64 = 60_000_000_000;
const DAY: i64 = 86_400_000_000_000;

fn fx(x: f64) -> i64 {
    (x * 1_000_000.0).round() as i64
}

fn bar(timestamp: i64, close: f64) -> Row {
    Row {
        timestamp,
        open: fx(close),
        high: fx(close + 2.0),
        low: fx(close - 1.0),
        close: fx(close),
        volume: 100,
        ticker: "AAPL".to_string(),
    }
}

#[test]
fn moving_average_of_two_bars() {
    let mut ma = MovingAverage::new(Window::Bars(2), CommonField::Close);
    assert_eq!(ma.get(), None);
    ma.update(&bar(1000, 100.0));
    assert_eq!(ma.get(), Some(fx(100.0)));
    ma.update(&bar(2000, 200.0));
    assert_eq!(ma.get(), Some(fx(150.0)));
    ma.update(&bar(3000, 300.0));
    assert_eq!(ma.get(), Some(fx(250.0)));
    assert_eq!(ma.name(), "Moving Average");
    let fresh = ma.fresh();
    assert_eq!(fresh.get(), None);
    ma.reset();
    assert_eq!(ma.get(), None);
}

#[test]
fn moving_average_over_a_duration() {
    let mut ma = MovingAverage::new(Window::Minutes(2), CommonField::Close);
    ma.update(&bar(0, 10.0));
    ma.update(&bar(MINUTE, 20.0));
    ma.update(&bar(2 * MINUTE, 30.0));
    assert_eq!(ma.get(), Some(fx(20.0)));
    ma.update(&bar(3 * MINUTE, 40.0));
    assert_eq!(ma.get(), Some(fx(30.0)));
    ma.update(&bar(10 * MINUTE, 70.0));
    assert_eq!(ma.get(), Some(fx(70.0)));
}

#[test]
fn rsi_of_a_rising_series_is_one_hundred() {
    let mut rsi = RSI::close(Window::Bars(14));
    assert_eq!(rsi.get(), None);
    rsi.update(&bar(0, 100.0));
    assert_eq!(rsi.get(), None);
    for step in 1..40 {
        rsi.update(&bar(step, 100.0 + step as f64 * 0.5));
        assert_eq!(rsi.get(), Some(fx(100.0)));
    }
    assert_eq!(rsi.name(), "RSI");
}

#[test]
fn rsi_of_a_falling_series_is_zero_and_of_a_mixed_series_in_between() {
    let mut rsi = RSI::new(Window::Bars(4), CommonField::Close);
    for (step, close) in [10.0, 9.0, 8.0, 7.0, 6.0].into_iter().enumerate() {
        rsi.update(&bar(step as i64, close));
    }
    assert_eq!(rsi.get(), Some(0));
    // changes in the window: -1, +3, -1, +1: gains 4, losses 2
    let mut mixed = RSI::new(Window::Bars(4), CommonField::Close);
    for (step, close) in [10.0, 9.0, 12.0, 11.0, 12.0].into_iter().enumerate() {
        mixed.update(&bar(step as i64, close));
    }
    // 100 * 1.0 / (1.0 + 0.5), rounded down
    assert_eq!(mixed.get(), Some(66_666_666));
    mixed.reset();
    assert_eq!(mixed.get(), None);
}

#[test]
fn high_and_low_of_period() {
    let mut high = HighOfPeriod::new(Window::Bars(3), CommonField::High);
    let mut low = LowOfPeriod::new(Window::Bars(3), CommonField::Low);
    assert_eq!(high.get(), None);
    assert_eq!(low.get(), None);
    let closes = [10.0, 14.0, 12.0, 11.0, 9.0, 9.5];
    let highs = [12.0, 16.0, 16.0, 16.0, 14.0, 13.0];
    let lows = [9.0, 9.0, 9.0, 10.0, 8.0, 8.0];
    for (i, close) in closes.into_iter().enumerate() {
        let row = bar(i as i64, close);
        assert!(high.accepts(row.timestamp));
        high.update(&row);
        low.update(&row);
        assert_eq!(high.get(), Some(fx(highs[i])));
        assert_eq!(low.get(), Some(fx(lows[i])));
    }
    assert_eq!(high.name(), "High of Period");
    assert_eq!(low.name(), "Low of Period");
    high.reset();
    low.reset();
    assert_eq!(high.get(), None);
    assert_eq!(low.get(), None);
    let mut timed = HighOfPeriod::new(Window::Minutes(1), CommonField::Close);
    timed.update(&bar(5 * MINUTE, 3.0));
    assert!(timed.accepts(5 * MINUTE));
    assert!(!timed.accepts(5 * MINUTE - 1));
    let mut timed_low = LowOfPeriod::new(Window::Minutes(1), CommonField::Close);
    timed_low.update(&bar(5 * MINUTE, 3.0));
    timed_low.update(&bar(7 * MINUTE, 4.0));
    assert_eq!(timed_low.get(), Some(fx(4.0)));
    assert!(!timed_low.accepts(6 * MINUTE));
}

#[test]
fn vwap_weights_prices_by_volume() {
    let mut vwap = VWAP::new(Window::Bars(2), Some(PriceField::Close));
    assert_eq!(vwap.get(), None);
    let mut first = bar(1, 10.0);
    first.volume = 0;
    vwap.update(&first);
    assert_eq!(vwap.get(), None);
    let mut second = bar(2, 20.0);
    second.volume = 300;
    vwap.update(&second);
    assert_eq!(vwap.get(), Some(fx(20.0)));
    let mut third = bar(3, 10.0);
    third.volume = 100;
    vwap.update(&third);
    // (20 * 300 + 10 * 100) / 400
    assert_eq!(vwap.get(), Some(fx(17.5)));
    assert_eq!(vwap.name(), "VWAP");
    // the typical price is the default
    let mut typical = VWAP::new(Window::Bars(2), None);
    typical.update(&bar(1, 10.0));
    assert_eq!(typical.get(), Some((fx(12.0) + fx(9.0) + fx(10.0)) / 3));
    typical.reset();
    assert_eq!(typical.get(), None);
}

#[test]
fn momentum_is_the_latest_percentage_change() {
    let mut momentum = Momentum::new(Window::Bars(5), CommonField::Close);
    momentum.update(&bar(1, 50.0));
    assert_eq!(momentum.get(), None);
    momentum.update(&bar(2, 55.0));
    assert_eq!(momentum.get(), Some(fx(10.0)));
    momentum.update(&bar(3, 44.0));
    assert_eq!(momentum.get(), Some(fx(-20.0)));
    assert_eq!(momentum.name(), "Momentum");
    momentum.reset();
    assert_eq!(momentum.get(), None);
}

#[test]
fn average_daily_volume() {
    let mut adv = ADV::new(2);
    assert_eq!(adv.get(), None);
    adv.on_market_close();
    assert_eq!(adv.get(), None);
    for (day, volumes) in [[100, 200], [300, 500], [50, 50]].into_iter().enumerate() {
        for (i, v) in volumes.into_iter().enumerate() {
            let mut row = bar(day as i64 * DAY + i as i64 * MINUTE, 10.0);
            row.volume = v;
            adv.update(&row);
        }
        assert_eq!(adv.current_day_volume(), (volumes[0] + volumes[1]) * SCALE);
        adv.on_market_close();
        assert_eq!(adv.current_day_volume(), 0);
    }
    // the average of the last two days: 800 and 100
    assert_eq!(adv.get(), Some(450 * SCALE));
    assert_eq!(adv.name(), "ADV");
    adv.reset();
    assert_eq!(adv.get(), None);
}

#[test]
fn average_current_volume() {
    let mut acv = ACV::with_premarket_volume(20, 50 * SCALE);
    assert_eq!(acv.get(fx(0.5)), None);
    assert_eq!(acv.interval(TimeOfDay::market_open()), None);
    let mut row = bar(9 * 60 * MINUTE + 45 * MINUTE, 10.0);
    row.volume = 150;
    acv.update(&row);
    assert_eq!(acv.current_volume(), 200 * SCALE);
    assert_eq!(acv.interval(TimeOfDay::market_open()), Some(15));
    acv.on_market_close();
    assert_eq!(acv.adv(), Some(200 * SCALE));
    assert_eq!(acv.current_volume(), 0);
    acv.set_premarket_volume(10 * SCALE);
    let mut next = bar(DAY + 10 * 60 * MINUTE, 10.0);
    next.volume = 40;
    acv.update(&next);
    // 50 / (200 * 0.5)
    assert_eq!(acv.get(fx(0.5)), Some(fx(0.5)));
    assert_eq!(acv.get(0), None);
    assert_eq!(acv.get(-1), None);
    assert_eq!(acv.name(), "ACV");
    acv.reset();
    assert_eq!(acv.adv(), None);
    assert_eq!(ACV::new(3).current_volume(), 0);
}

#[test]
fn test_timestamp_to_interval_values() {
    let open = TimeOfDay::new(9, 30, 0);
    assert_eq!(timestamp_to_interval(9 * 60 * MINUTE + 30 * MINUTE, open), 0);
    assert_eq!(timestamp_to_interval(3 * DAY + 16 * 60 * MINUTE + 59_000_000_000, open), 390);
    assert_eq!(timestamp_to_interval(4 * 60 * MINUTE, open), -330);
    assert_eq!(timestamp_to_interval(-1, open), 23 * 60 + 59 - 570);
}

#[test]
fn indicators_behind_the_common_interface() {
    let mut all = vec![
        Indicator::MovingAverage(MovingAverage::new(Window::Bars(2), CommonField::Close)),
        Indicator::RSI(RSI::close(Window::Bars(2))),
        Indicator::HighOfPeriod(HighOfPeriod::new(Window::Bars(2), CommonField::Close)),
        Indicator::LowOfPeriod(LowOfPeriod::new(Window::Bars(2), CommonField::Close)),
        Indicator::VWAP(VWAP::new(Window::Bars(2), Some(PriceField::Close))),
        Indicator::ADV(ADV::new(2)),
        Indicator::Momentum(Momentum::new(Window::Bars(2), CommonField::Close)),
    ];
    for indicator in all.iter_mut() {
        assert_eq!(indicator.get(), None);
        for (ts, close) in [(1, 10.0), (2, 20.0), (3, 30.0)] {
            assert!(indicator.accepts(ts));
            indicator.update(&bar(ts, close));
        }
    }
    let got: Vec<Option<i64>> = all.iter().map(|i| i.get()).collect();
    assert_eq!(
        got,
        vec![
            Some(fx(25.0)),
            Some(fx(100.0)),
            Some(fx(30.0)),
            Some(fx(20.0)),
            Some(fx(25.0)),
            None,
            Some(fx(50.0)),
        ]
    );
    let names: Vec<&str> = all.iter().map(|i| i.name()).collect();
    assert_eq!(
        names,
        vec!["Moving Average", "RSI", "High of Period", "Low of Period", "VWAP", "ADV", "Momentum"]
    );
    for indicator in all.iter_mut() {
        let fresh = indicator.fresh();
        assert_eq!(fresh.get(), None);
        indicator.reset();
        assert_eq!(indicator.get(), None);
    }
}

#[test]
fn fields_of_a_bar() {
    let row = Row {
        timestamp: 1,
        open: fx(10.0),
        high: fx(13.0),
        low: fx(9.0),
        close: fx(11.0),
        volume: 250,
        ticker: "T".to_string(),
    };
    assert_eq!(CommonField::Open.extract(&row), fx(10.0));
    assert_eq!(CommonField::High.extract(&row), fx(13.0));
    assert_eq!(CommonField::Low.extract(&row), fx(9.0));
    assert_eq!(CommonField::Close.extract(&row), fx(11.0));
    assert_eq!(CommonField::Volume.extract(&row), fx(250.0));
    assert_eq!(CommonField::Median.extract(&row), fx(11.0));
    assert_eq!(CommonField::Typical.extract(&row), fx(11.0));
    assert_eq!(CommonField::WeightedClose.extract(&row), fx(11.0));
    for (price, common) in [
        (PriceField::Open, CommonField::Open),
        (PriceField::High, CommonField::High),
        (PriceField::Low, CommonField::Low),
        (PriceField::Close, CommonField::Close),
        (PriceField::Median, CommonField::Median),
        (PriceField::Typical, CommonField::Typical),
        (PriceField::WeightedClose, CommonField::WeightedClose),
    ] {
        assert_eq!(price.to_common(), common);
        assert_eq!(price.extract(&row), common.extract(&row));
    }
    assert_eq!(row.get_field(OHLCV::Open), fx(10.0));
    assert_eq!(row.get_field(OHLCV::High), fx(13.0));
    assert_eq!(row.get_field(OHLCV::Low), fx(9.0));
    assert_eq!(row.get_field(OHLCV::Close), fx(11.0));
    assert_eq!(row.get_field(OHLCV::Volume), fx(250.0));
    let raw: Vec<i64> = OHLCV::all().into_iter().map(|f| row.get_field(f)).collect();
    assert_eq!(raw, vec![fx(10.0), fx(13.0), fx(9.0), fx(11.0), fx(250.0)]);
    assert_eq!(row.typical_price(), fx(11.0));
    assert_eq!(row.weighted_close(), fx(11.0));
    assert_eq!(row.median_price(), fx(11.0));
    // rounding is downwards, also below zero
    let odd = Row { high: 1, low: 0, close: 0, ..row.duplicate() };
    assert_eq!(odd.median_price(), 0);
    assert_eq!(odd.typical_price(), 0);
    let negative = Row { high: -1, low: 0, close: 0, ..row.duplicate() };
    assert_eq!(negative.median_price(), -1);
    assert_eq!(negative.typical_price(), -1);
    assert_eq!(negative.weighted_close(), -1);
    let previous = Row { close: fx(15.0), ..row.duplicate() };
    assert_eq!(row.true_range(&previous), fx(6.0));
    let previous = Row { close: fx(8.0), ..row.duplicate() };
    assert_eq!(row.true_range(&previous), fx(5.0));
    let previous = Row { close: fx(11.0), ..row.duplicate() };
    assert_eq!(row.true_range(&previous), fx(4.0));
}

#[test]
fn windows_over_a_slice_of_bars() {
    let data: Vec<Row> = (0..6).map(|i| bar(i * MINUTE, 10.0 + i as f64)).collect();
    let inside = data.filter_by_time_window(4 * MINUTE, 2 * MINUTE);
    let stamps: Vec<i64> = inside.iter().map(|r| r.timestamp).collect();
    assert_eq!(stamps, vec![2 * MINUTE, 3 * MINUTE, 4 * MINUTE]);
    assert_eq!(data.last_n_bars(2).len(), 2);
    assert_eq!(data.last_n_bars(2)[0].timestamp, 4 * MINUTE);
    assert_eq!(data.last_n_bars(10).len(), 6);
    assert_eq!(data.last_n_bars(0).len(), 0);
    assert!(data.has_enough_bars(6));
    assert!(!data.has_enough_bars(7));
}
