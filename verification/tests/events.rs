use strategy_tester::events::cross::{Cross, CrossDirection};
use strategy_tester::events::event::{Event, Threshold};
use strategy_tester::indicators::fields::CommonField;
use strategy_tester::indicators::indicator::Indicator;
use strategy_tester::indicators::indicators::MovingAverage;
use strategy_tester::indicators::window::Window;
use strategy_tester::position::condition::Condition;
use strategy_tester::types::ohlcv::Row;

fn fx(x: f64) -> i64 {
    (x * 1_000_000.0).round() as i64
}

fn create_test_row(timestamp: i64, close: f64) -> Row {
    Row {
        timestamp,
        ticker: "TEST".to_string(),
        open: fx(close - 0.5),
        high: fx(close + 1.0),
        low: fx(close - 1.0),
        close: fx(close),
        volume: 1000,
    }
}

#[test]
fn test_cross_above_fixed_value() {
    let mut indicators =
        vec![Indicator::MovingAverage(MovingAverage::new(Window::Bars(2), CommonField::Close))];
    let mut event = Cross::above(0, Threshold::Fixed(fx(100.0)));

    // First update: MA = 90, no cross (no history)
    let row1 = create_test_row(1, 90.0);
    indicators[0].update(&row1);
    assert!(!event.update(&indicators, &row1));

    // Second update: MA = 95, no cross (still below)
    let row2 = create_test_row(2, 100.0);
    indicators[0].update(&row2);
    assert!(!event.update(&indicators, &row2));
    // MA should be (90 + 100) / 2 = 95

    // Third update: MA = 105, CROSS! (was 95, now 105)
    let row3 = create_test_row(3, 110.0);
    indicators[0].update(&row3);
    assert!(event.update(&indicators, &row3));
    // MA should be (100 + 110) / 2 = 105

    // Fourth update: MA = 110, no cross (already above)
    let row4 = create_test_row(4, 110.0);
    indicators[0].update(&row4);
    assert!(!event.update(&indicators, &row4));
}

#[test]
fn test_cross_above_indicator() {
    // Fast MA (2-bar) and Slow MA (3-bar)
    let mut indicators = vec![
        Indicator::MovingAverage(MovingAverage::new(Window::Bars(2), CommonField::Close)),
        Indicator::MovingAverage(MovingAverage::new(Window::Bars(3), CommonField::Close)),
    ];
    let mut event = Cross::above(0, Threshold::Indicator(1));

    // Build up some initial data
    for (ts, price) in [(1, 100.0), (2, 100.0), (3, 100.0)] {
        let row = create_test_row(ts, price);
        indicators[0].update(&row);
        indicators[1].update(&row);
        event.update(&indicators, &row);
    }
    // Both MAs are at 100

    // Make fast MA drop below slow MA
    let row4 = create_test_row(4, 80.0);
    indicators[0].update(&row4);
    indicators[1].update(&row4);
    event.update(&indicators, &row4);
    // Fast: (100 + 80) / 2 = 90
    // Slow: (100 + 100 + 80) / 3 = 93.33

    // Now make fast MA cross above slow MA with a stronger signal
    let row5 = create_test_row(5, 130.0);
    indicators[0].update(&row5);
    indicators[1].update(&row5);
    let crossed = event.update(&indicators, &row5);
    // Fast: (80 + 130) / 2 = 105
    // Slow: (100 + 80 + 130) / 3 = 103.33
    // This should trigger a cross: fast was 90 (< 93.33), now 105 (> 103.33)
    assert!(crossed);
}

#[test]
fn test_cross_below_fixed_value() {
    let mut indicators =
        vec![Indicator::MovingAverage(MovingAverage::new(Window::Bars(2), CommonField::Close))];
    let mut event = Cross::below(0, Threshold::Fixed(fx(100.0)));

    // Start above threshold
    let row1 = create_test_row(1, 110.0);
    indicators[0].update(&row1);
    assert!(!event.update(&indicators, &row1));

    // Stay above
    let row2 = create_test_row(2, 105.0);
    indicators[0].update(&row2);
    assert!(!event.update(&indicators, &row2));
    // MA = (110 + 105) / 2 = 107.5

    // Cross below
    let row3 = create_test_row(3, 90.0);
    indicators[0].update(&row3);
    assert!(event.update(&indicators, &row3));
    // MA = (105 + 90) / 2 = 97.5 (crossed from 107.5 to 97.5)

    // Stay below
    let row4 = create_test_row(4, 85.0);
    indicators[0].update(&row4);
    assert!(!event.update(&indicators, &row4));
}

#[test]
fn test_cross_above_field() {
    // Test indicator crossing above a row field (e.g., Close price)
    let mut indicators =
        vec![Indicator::MovingAverage(MovingAverage::new(Window::Bars(2), CommonField::High))];
    let mut event = Cross::above(0, Threshold::Field(CommonField::Close));

    // MA of High starts below Close
    let row1 = create_test_row(1, 100.0); // High = 101.0
    indicators[0].update(&row1);
    assert!(!event.update(&indicators, &row1));

    let row2 = create_test_row(2, 100.0); // High = 101.0, MA = 101.0
    indicators[0].update(&row2);
    assert!(!event.update(&indicators, &row2));
    // MA of High = 101.0, Close = 100.0, MA is above Close (but no cross from below)

    // Drop MA below Close
    let row3 = create_test_row(3, 105.0); // High = 106.0, Close = 105.0
    indicators[0].update(&row3);
    assert!(!event.update(&indicators, &row3));
    // MA = (101 + 106) / 2 = 103.5, Close = 105.0, MA is below Close

    // Cross above Close
    let row4 = create_test_row(4, 100.0); // High = 101.0, Close = 100.0
    indicators[0].update(&row4);
    assert!(event.update(&indicators, &row4));
    // MA = (106 + 101) / 2 = 103.5, Close = 100.0
    // MA was 103.5 < 105.0, now 103.5 > 100.0 - CROSS!
}

#[test]
fn test_reset() {
    let mut indicators =
        vec![Indicator::MovingAverage(MovingAverage::new(Window::Bars(2), CommonField::Close))];
    let mut event = Cross::above(0, Threshold::Fixed(fx(100.0)));

    // Build up history
    let row1 = create_test_row(1, 90.0);
    indicators[0].update(&row1);
    event.update(&indicators, &row1);

    // Reset event
    event.reset();

    // After reset, next update should not trigger cross (no history)
    let row2 = create_test_row(2, 110.0);
    indicators[0].update(&row2);
    assert!(!event.update(&indicators, &row2));
}

#[test]
fn cross_on_a_missing_or_unready_indicator_is_false() {
    let indicators =
        vec![Indicator::MovingAverage(MovingAverage::new(Window::Bars(2), CommonField::Close))];
    let row = create_test_row(1, 90.0);
    let mut unready = Cross::new(0, Threshold::Fixed(fx(1.0)), CrossDirection::Above);
    assert!(!unready.check(&indicators, &row));
    assert!(!unready.check(&indicators, &row));
    let mut missing = Cross::below(7, Threshold::Indicator(9));
    assert!(!missing.update(&indicators, &row));
    assert_eq!(missing.prev_indicator, None);
    assert_eq!(missing.prev_threshold, None);
    assert_eq!(Threshold::Indicator(9).get_value(&indicators, &row), None);
    assert_eq!(Threshold::Fixed(5).get_value(&indicators, &row), Some(5));
    assert_eq!(
        Threshold::Field(CommonField::High).get_value(&indicators, &row),
        Some(fx(91.0))
    );
    assert_eq!(unready.name(), "Cross Above");
    assert_eq!(missing.name(), "Cross Below");
}

#[test]
fn cross_needs_a_strict_move_beyond_the_threshold() {
    let mut event = Cross::above(0, Threshold::Fixed(10));
    event.prev_indicator = Some(10);
    event.prev_threshold = Some(10);
    assert!(!event.crossed(10, 10));
    assert!(event.crossed(11, 10));
    let mut below = Cross::below(0, Threshold::Fixed(10));
    below.prev_indicator = Some(10);
    below.prev_threshold = Some(10);
    assert!(!below.crossed(10, 10));
    assert!(below.crossed(9, 10));
    assert!(!below.crossed(11, 10));
}

#[test]
fn condition_detects_crossings_between_its_operands() {
    let ma = Indicator::MovingAverage(MovingAverage::new(Window::Bars(2), CommonField::Close));
    let mut above: Condition<Indicator, i64> = Condition::new(ma, fx(100.0));
    let mut crossings = Vec::new();
    for (ts, close) in [(1, 90.0), (2, 100.0), (3, 110.0), (4, 110.0), (5, 70.0)] {
        let row = create_test_row(ts, close);
        above.update(&row);
        crossings.push(above.cross_above(&row));
    }
    assert_eq!(crossings, vec![false, false, true, false, false]);

    let mut below: Condition<CommonField, CommonField> =
        Condition::new(CommonField::Close, CommonField::Open);
    let mut falling = Row { open: 10, close: 12, ..create_test_row(1, 0.0) };
    assert!(!below.cross_below(&falling));
    falling.close = 9;
    assert!(below.cross_below(&falling));
    assert!(!below.cross_below(&falling));
    assert_eq!(below.left_val_prev, Some(9));
    assert_eq!(below.right_val_prev, Some(10));
}
