use strategy_tester::indicators::calculators::{mfi, obv, vwap};
use strategy_tester::indicators::common::{ema, sma, std_dev, wma};
use strategy_tester::indicators::fields::{CommonField, PriceField};
use strategy_tester::indicators::price::{
    atr, bollinger_bands, price_ema, price_sma, price_std_dev, price_wma, roc, rsi,
};
use strategy_tester::indicators::time::TimeWindow;
use strategy_tester::types::ohlcv::Row;

fn fx(x: f64) -> i64 {
    (x * 1_000_000.0).floor() as i64
}

fn create_test_data() -> Vec<Row> {
    vec![
        Row {
            timestamp: 1000,
            open: fx(100.0),
            high: fx(105.0),
            low: fx(99.0),
            close: fx(102.0),
            volume: 1000,
            ticker: "TEST".to_string(),
        },
        Row {
            timestamp: 2000,
            open: fx(102.0),
            high: fx(106.0),
            low: fx(101.0),
            close: fx(104.0),
            volume: 1200,
            ticker: "TEST".to_string(),
        },
        Row {
            timestamp: 3000,
            open: fx(104.0),
            high: fx(108.0),
            low: fx(103.0),
            close: fx(106.0),
            volume: 1500,
            ticker: "TEST".to_string(),
        },
    ]
}

#[test]
fn test_sma() {
    let data = create_test_data();
    let result = sma(&data, TimeWindow::Bars(3), CommonField::Close);
    assert_eq!(result, Some(fx(104.0))); // (102 + 104 + 106) / 3
}

#[test]
fn test_sma_volume() {
    let data = create_test_data();
    let result = sma(&data, TimeWindow::Bars(3), CommonField::Volume);
    assert_eq!(result, Some(fx(1233.333333333333))); // (1000 + 1200 + 1500) / 3
}

#[test]
fn test_price_sma() {
    let data = create_test_data();
    let result = price_sma(&data, TimeWindow::Bars(3), PriceField::Close);
    assert_eq!(result, Some(fx(104.0)));
}

#[test]
fn test_typical_price() {
    let data = create_test_data();
    let result = price_sma(&data, TimeWindow::Bars(1), PriceField::Typical);
    // Last row: (108 + 103 + 106) / 3 = 105.666...
    assert!(result.is_some());
    assert_eq!(result, Some(105_666_666));
}

#[test]
fn averages_need_enough_bars() {
    let data = create_test_data();
    let none: Vec<Row> = Vec::new();
    assert_eq!(sma(&none, TimeWindow::Bars(1), CommonField::Close), None);
    assert_eq!(sma(&data, TimeWindow::Bars(4), CommonField::Close), None);
    assert_eq!(sma(&data, TimeWindow::Bars(0), CommonField::Close), None);
    assert_eq!(sma(&data, TimeWindow::Bars(2), CommonField::Close), Some(fx(105.0)));
    assert_eq!(wma(&data, TimeWindow::Bars(4), CommonField::Close), None);
    assert_eq!(wma(&none, TimeWindow::Bars(1), CommonField::Close), None);
    assert_eq!(wma(&data, TimeWindow::Bars(0), CommonField::Close), None);
    assert_eq!(std_dev(&data, TimeWindow::Bars(4), CommonField::Close), None);
    assert_eq!(std_dev(&none, TimeWindow::Minutes(4), CommonField::Close), None);
    assert_eq!(ema(&none, TimeWindow::Bars(2), CommonField::Close, Some(1)), None);
    assert_eq!(ema(&data, TimeWindow::Bars(0), CommonField::Close, Some(1)), None);
    assert_eq!(ema(&data, TimeWindow::Minutes(-3), CommonField::Close, Some(1)), None);
}

#[test]
fn averages_over_a_duration_look_back_from_the_last_bar() {
    let minute: i64 = 60_000_000_000;
    let mut data = create_test_data();
    for (i, row) in data.iter_mut().enumerate() {
        row.timestamp = i as i64 * minute;
    }
    assert_eq!(sma(&data, TimeWindow::Minutes(1), CommonField::Close), Some(fx(105.0)));
    assert_eq!(sma(&data, TimeWindow::Minutes(2), CommonField::Close), Some(fx(104.0)));
    assert_eq!(sma(&data, TimeWindow::Hours(0), CommonField::Close), Some(fx(106.0)));
    assert_eq!(sma(&data, TimeWindow::Hours(-1), CommonField::Close), None);
    // weights 1 and 2: (104 + 2 * 106) / 3
    assert_eq!(wma(&data, TimeWindow::Minutes(1), CommonField::Close), Some(105_333_333));
    assert_eq!(std_dev(&data, TimeWindow::Minutes(1), CommonField::Close), Some(fx(1.0)));
    assert_eq!(vwap(&data, TimeWindow::Minutes(1)), vwap(&data, TimeWindow::Bars(2)));
}

#[test]
fn weighted_and_exponential_averages() {
    let data = create_test_data();
    // (1 * 102 + 2 * 104 + 3 * 106) / 6
    assert_eq!(wma(&data, TimeWindow::Bars(3), CommonField::Close), Some(104_666_666));
    assert_eq!(price_wma(&data, TimeWindow::Bars(3), PriceField::Close), Some(104_666_666));
    // without a previous value the exponential average starts as the simple one
    assert_eq!(ema(&data, TimeWindow::Bars(3), CommonField::Close, None), Some(fx(104.0)));
    // 100 + (106 - 100) * 2 / 4
    assert_eq!(ema(&data, TimeWindow::Bars(3), CommonField::Close, Some(fx(100.0))), Some(fx(103.0)));
    assert_eq!(price_ema(&data, TimeWindow::Minutes(3), PriceField::Close, Some(fx(110.0))), Some(fx(108.0)));
    assert_eq!(ema(&data, TimeWindow::Days(1), CommonField::Close, Some(fx(100.0))), Some(fx(106.0)));
}

#[test]
fn deviation_and_bands() {
    let data = create_test_data();
    // the closes 102, 104, 106 deviate by sqrt(8 / 3)
    assert_eq!(std_dev(&data, TimeWindow::Bars(3), CommonField::Close), Some(1_632_993));
    assert_eq!(price_std_dev(&data, TimeWindow::Bars(3), PriceField::Close), Some(1_632_993));
    assert_eq!(std_dev(&data, TimeWindow::Bars(1), CommonField::Close), Some(0));
    let (middle, upper, lower) =
        bollinger_bands(&data, TimeWindow::Bars(3), PriceField::High, fx(2.0)).unwrap();
    assert_eq!(middle, 106_333_333);
    assert_eq!(upper, 106_333_333 + 3_265_986);
    assert_eq!(lower, 106_333_333 - 3_265_986);
    assert_eq!(bollinger_bands(&data, TimeWindow::Bars(5), PriceField::High, fx(2.0)), None);
}

#[test]
fn true_range_and_rate_of_change() {
    let data = create_test_data();
    // true ranges: max(5, 4, 1) = 5 and max(5, 4, 1) = 5
    assert_eq!(atr(&data, TimeWindow::Bars(2)), Some(fx(5.0)));
    assert_eq!(atr(&data, TimeWindow::Bars(3)), None);
    assert_eq!(atr(&data[..1], TimeWindow::Bars(1)), None);
    // (106 - 102) / 102 * 100, rounded down
    assert_eq!(roc(&data, 2, PriceField::Close), Some(3_921_568));
    assert_eq!(roc(&data, 1, PriceField::Close), Some(1_923_076));
    assert_eq!(roc(&data, 3, PriceField::Close), None);
    let mut zero = create_test_data();
    zero[0].close = 0;
    assert_eq!(roc(&zero, 2, PriceField::Close), None);
}

#[test]
fn relative_strength_of_a_series() {
    let data = create_test_data();
    assert_eq!(rsi(&data, TimeWindow::Bars(2), PriceField::Close), Some(fx(100.0)));
    assert_eq!(rsi(&data, TimeWindow::Bars(3), PriceField::Close), None);
    assert_eq!(rsi(&data, TimeWindow::Bars(0), PriceField::Close), None);
    assert_eq!(rsi(&data, TimeWindow::Minutes(2), PriceField::Close), None);
    assert_eq!(rsi(&data[..1], TimeWindow::Bars(0), PriceField::Close), None);
    let mut falling = create_test_data();
    falling.reverse();
    assert_eq!(rsi(&falling, TimeWindow::Bars(2), PriceField::Close), Some(0));
    let mut mixed = create_test_data();
    mixed[2].close = fx(103.0);
    // gains 2, losses 1
    assert_eq!(rsi(&mixed, TimeWindow::Bars(2), PriceField::Close), Some(66_666_666));
}

#[test]
fn volume_calculations() {
    let data = create_test_data();
    // typical prices 102, 103.666666, 105.666666
    let expected = (102_000_000i128 * 1000 + 103_666_666 * 1200 + 105_666_666 * 1500) / 3700;
    assert_eq!(vwap(&data, TimeWindow::Bars(3)), Some(expected as i64));
    assert_eq!(vwap(&data, TimeWindow::Bars(4)), None);
    let none: Vec<Row> = Vec::new();
    assert_eq!(vwap(&none, TimeWindow::Bars(0)), None);
    let mut silent = create_test_data();
    for row in silent.iter_mut() {
        row.volume = 0;
    }
    assert_eq!(vwap(&silent, TimeWindow::Bars(3)), None);

    assert_eq!(obv(&data), Some(2700));
    assert_eq!(obv(&data[..1]), None);
    let mut falling = create_test_data();
    falling.reverse();
    assert_eq!(obv(&falling), Some(-2200));
    let mut still = create_test_data();
    still[1].close = still[0].close;
    assert_eq!(obv(&still), Some(1500));

    assert_eq!(mfi(&data, TimeWindow::Bars(2)), Some(fx(100.0)));
    assert_eq!(mfi(&data, TimeWindow::Bars(3)), None);
    assert_eq!(mfi(&data, TimeWindow::Minutes(3)), None);
    assert_eq!(mfi(&falling, TimeWindow::Bars(2)), Some(0));
    let mut mixed = create_test_data();
    mixed[2].high = fx(100.0);
    mixed[2].low = fx(100.0);
    mixed[2].close = fx(100.0);
    // positive flow 103.666666 * 1200, negative flow 100 * 1500
    let positive: i128 = 103_666_666 * 1200;
    let negative: i128 = 100_000_000 * 1500;
    assert_eq!(
        mfi(&mixed, TimeWindow::Bars(2)),
        Some((100_000_000 * positive / (positive + negative)) as i64)
    );
}
