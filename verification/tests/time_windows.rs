use chrono::{DateTime, Datelike, Duration, Timelike, Utc};
use strategy_tester::config::MarketHours;
use strategy_tester::indicators::time::{
    get_start_time, get_start_time_with_config, TimeOfDay, TimeWindow,
};
use strategy_tester::indicators::window::{Window, WindowConfig};

fn default_hours() -> MarketHours {
    MarketHours {
        include_premarket: false,
        include_postmarket: false,
        market_open: TimeOfDay::new(9, 30, 0),
        market_close: TimeOfDay::new(16, 0, 0),
        premarket_open: TimeOfDay::new(4, 0, 0),
        postmarket_close: TimeOfDay::new(20, 0, 0),
    }
}

fn nanos(text: &str) -> i64 {
    DateTime::parse_from_rfc3339(text)
        .unwrap()
        .with_timezone(&Utc)
        .timestamp_nanos_opt()
        .unwrap()
}

fn datetime(nanos: i64) -> DateTime<Utc> {
    DateTime::<Utc>::from_timestamp_nanos(nanos)
}

#[test]
fn test_time_window_duration() {
    let window = TimeWindow::Minutes(5);
    assert_eq!(
        window.to_duration(),
        Some(Duration::minutes(5).num_nanoseconds().unwrap() as i128)
    );

    let window = TimeWindow::Bars(10);
    assert_eq!(window.to_duration(), None);
}

#[test]
fn test_supports_rounding() {
    assert!(!TimeWindow::Minutes(5).supports_rounding());
    assert!(TimeWindow::Minutes(10).supports_rounding());
    assert!(TimeWindow::Minutes(30).supports_rounding());
    assert!(TimeWindow::Hours(1).supports_rounding());
    assert!(TimeWindow::Days(1).supports_rounding());
    assert!(!TimeWindow::Bars(20).supports_rounding());
}

#[test]
fn test_hour_rounding() {
    // Current time: 2025-08-08 14:26:35
    let current = nanos("2025-08-08T14:26:35Z");

    let window = TimeWindow::Hours(1);

    // Without rounding: should be 13:26:35
    let start_no_round = datetime(window.get_start_time(current, false, None));
    assert_eq!(start_no_round.hour(), 13);
    assert_eq!(start_no_round.minute(), 26);
    assert_eq!(start_no_round.second(), 35);

    // With rounding: should be 14:00:00
    let start_round = datetime(window.get_start_time(current, true, None));
    assert_eq!(start_round.hour(), 14);
    assert_eq!(start_round.minute(), 0);
    assert_eq!(start_round.second(), 0);
}

#[test]
fn test_day_rounding_without_premarket() {
    // Current time: 2025-08-08 14:26:00
    let current = nanos("2025-08-08T14:26:00Z");

    let window = TimeWindow::Days(1);

    // Without rounding: should be 2025-08-07 14:26:00
    let start_no_round = datetime(window.get_start_time(current, false, None));
    assert_eq!(start_no_round.day(), 7);
    assert_eq!(start_no_round.hour(), 14);
    assert_eq!(start_no_round.minute(), 26);

    // With rounding (no premarket): should be 2025-08-08 09:30:00
    let start_round = datetime(window.get_start_time(current, true, None));
    assert_eq!(start_round.day(), 8);
    assert_eq!(start_round.hour(), 9);
    assert_eq!(start_round.minute(), 30);
    assert_eq!(start_round.second(), 0);
}

#[test]
fn test_day_rounding_with_premarket() {
    let market_hours = MarketHours { include_premarket: true, ..default_hours() };

    // Current time: 2025-08-08 14:26:00
    let current = nanos("2025-08-08T14:26:00Z");

    let window = TimeWindow::Days(1);

    // With rounding (with premarket): should be 2025-08-08 04:00:00
    let start_round = datetime(window.get_start_time(current, true, Some(&market_hours)));
    assert_eq!(start_round.day(), 8);
    assert_eq!(start_round.hour(), 4);
    assert_eq!(start_round.minute(), 0);
    assert_eq!(start_round.second(), 0);
}

#[test]
fn test_minute_rounding() {
    // Current time: 2025-08-08 14:26:35
    let current = nanos("2025-08-08T14:26:35Z");

    let window = TimeWindow::Minutes(15);

    // Without rounding: should be 14:11:35 (15 minutes back)
    let start_no_round = datetime(window.get_start_time(current, false, None));
    assert_eq!(start_no_round.hour(), 14);
    assert_eq!(start_no_round.minute(), 11);
    assert_eq!(start_no_round.second(), 35);

    // With rounding: should be 14:15:00 (rounded to 15-minute interval)
    let start_round = datetime(window.get_start_time(current, true, None));
    assert_eq!(start_round.hour(), 14);
    assert_eq!(start_round.minute(), 15);
    assert_eq!(start_round.second(), 0);
}

#[test]
fn test_central_get_start_time_function() {
    let current = nanos("2025-08-08T14:26:00Z");

    // Test using the central function
    let start = datetime(get_start_time(TimeWindow::Hours(2), current, true));
    assert_eq!(start.hour(), 14);
    assert_eq!(start.minute(), 0);
}

#[test]
fn test_timestamp_to_interval() {
    // This test requires proper config initialization
    // and would need actual timestamps to test properly
}

#[test]
fn start_time_with_explicit_hours_matches_default() {
    let current = nanos("2025-08-08T14:26:00Z");
    for window in [TimeWindow::Minutes(15), TimeWindow::Hours(3), TimeWindow::Days(2), TimeWindow::Bars(4)] {
        for round in [false, true] {
            assert_eq!(
                get_start_time(window, current, round),
                get_start_time_with_config(window, current, round, &default_hours())
            );
        }
    }
}

#[test]
fn window_contains_is_inclusive_on_both_ends() {
    let minute: i64 = 60_000_000_000;
    let window = Window::Minutes(5);
    let reference = 1_000 * minute;
    assert!(window.contains(reference, reference));
    assert!(window.contains(reference, reference - 5 * minute));
    assert!(!window.contains(reference, reference - 5 * minute - 1));
    assert!(!window.contains(reference, reference + 1));
    assert!(!Window::Bars(3).contains(reference, reference));
    assert_eq!(Window::Bars(3).to_bars(), Some(3));
    assert_eq!(Window::Hours(1).to_bars(), None);
    assert_eq!(Window::Hours(2).to_duration(), Some(120 * minute as i128));
    assert_eq!(Window::Days(1).to_duration(), Some(1440 * minute as i128));
}

#[test]
fn window_config_rounds_hours_and_days() {
    let current = nanos("2025-08-08T14:26:35Z");
    let hours = default_hours();
    let rounded: WindowConfig = Window::Hours(2).rounded();
    assert!(rounded.round);
    assert_eq!(rounded.get_start_time(current, &hours), nanos("2025-08-08T13:00:00Z"));
    let plain: WindowConfig = Window::Hours(2).unrounded();
    assert!(!plain.round);
    assert_eq!(plain.get_start_time(current, &hours), nanos("2025-08-08T12:26:35Z"));
    assert_eq!(
        Window::Days(2).rounded().get_start_time(current, &hours),
        nanos("2025-08-07T09:30:00Z")
    );
    assert_eq!(
        Window::Minutes(30).rounded().get_start_time(current, &hours),
        nanos("2025-08-08T13:56:35Z")
    );
    assert_eq!(Window::Bars(5).rounded().get_start_time(current, &hours), current);
    let from: WindowConfig = WindowConfig::from(Window::Days(1));
    assert!(!from.round);
    assert_eq!(from.window, Window::Days(1));
}

#[test]
fn start_of_day_before_the_epoch_rounds_down() {
    // 1969-12-31 23:00:00 lies in the day that starts at 1969-12-31 00:00:00
    let current = nanos("1969-12-31T23:00:00Z");
    assert_eq!(
        Window::Days(1).rounded().get_start_time(current, &default_hours()),
        nanos("1969-12-31T09:30:00Z")
    );
    assert_eq!(
        Window::Hours(1).rounded().get_start_time(current + 5, &default_hours()),
        nanos("1969-12-31T23:00:00Z")
    );
}
