use chrono::{DateTime, Duration, NaiveTime, TimeZone, Timelike, Utc};
use strategy_tester::config::MarketHours;
use strategy_tester::indicators::indicators::acv::timestamp_to_interval;
use strategy_tester::indicators::time::{TimeOfDay, TimeWindow};
use strategy_tester::indicators::window::Window;
use strategy_tester::utils::time::{
    apply_time_to_timestamp, get_mc_timestamp, start_of_day, start_of_hour,
};

/// Timestamps spread over the years 1900 to 2200, on both sides of the epoch.
fn samples() -> Vec<i64> {
    let mut out = vec![0, 1, -1, 86_399_999_999_999, 86_400_000_000_000, -86_400_000_000_000];
    let mut state: u64 = 2024;
    for _ in 0..2_000 {
        state = state.wrapping_mul(6364136223846793005).wrapping_add(1442695040888963407);
        let span: i128 = 300 * 365 * 86_400_000_000_000;
        let offset = (state as i128 * span) >> 64;
        out.push((offset - 70 * 365 * 86_400_000_000_000) as i64);
    }
    out
}

fn at(nanos: i64) -> DateTime<Utc> {
    DateTime::<Utc>::from_timestamp_nanos(nanos)
}

fn nanos(dt: DateTime<Utc>) -> i64 {
    dt.timestamp_nanos_opt().unwrap()
}

#[test]
fn day_and_hour_starts_agree_with_the_calendar() {
    for ts in samples() {
        let dt = at(ts);
        let midnight = Utc.from_utc_datetime(&dt.date_naive().and_time(NaiveTime::MIN));
        assert_eq!(start_of_day(ts), nanos(midnight) as i128);
        let hour = dt.with_minute(0).unwrap().with_second(0).unwrap().with_nanosecond(0).unwrap();
        assert_eq!(start_of_hour(ts), nanos(hour) as i128);
    }
}

#[test]
fn session_times_agree_with_the_calendar() {
    let hours = MarketHours::default();
    for ts in samples() {
        let dt = at(ts);
        for (h, m, s) in [(9, 30, 0), (16, 0, 0), (4, 0, 0), (23, 59, 59), (0, 0, 0)] {
            let expected = dt
                .date_naive()
                .and_time(NaiveTime::from_hms_opt(h, m, s).unwrap())
                .and_utc();
            assert_eq!(apply_time_to_timestamp(ts, TimeOfDay::new(h, m, s)), nanos(expected));
        }
        let close = dt.date_naive().and_time(NaiveTime::from_hms_opt(16, 0, 0).unwrap()).and_utc();
        assert_eq!(get_mc_timestamp(ts, &hours), nanos(close));
        let minutes = dt.hour() as i64 * 60 + dt.minute() as i64;
        assert_eq!(timestamp_to_interval(ts, TimeOfDay::new(9, 30, 0)), minutes - 570);
    }
}

#[test]
fn window_arithmetic_agrees_with_the_calendar() {
    let all = samples();
    let hours = MarketHours::default();
    for (i, ts) in all.iter().copied().enumerate() {
        let reference = at(ts);
        let check = all[(i * 7 + 3) % all.len()];
        for amount in [0i64, 1, 5, 90, 1_000] {
            for (window, duration) in [
                (Window::Minutes(amount), Duration::minutes(amount)),
                (Window::Hours(amount), Duration::hours(amount)),
                (Window::Days(amount), Duration::days(amount)),
            ] {
                assert_eq!(window.to_duration(), Some(duration.num_nanoseconds().unwrap() as i128));
                assert_eq!(window.get_start_time(ts), nanos(reference - duration));
                let near = ts - duration.num_nanoseconds().unwrap() + (check % 3) - 1;
                for probe in [check, near, ts, ts + 1] {
                    let expected = at(probe) >= reference - duration && at(probe) <= reference;
                    assert_eq!(window.contains(ts, probe), expected);
                }
            }
            if amount >= 1 {
                let rounded_hours = reference
                    .with_minute(0)
                    .unwrap()
                    .with_second(0)
                    .unwrap()
                    .with_nanosecond(0)
                    .unwrap()
                    - Duration::hours(amount - 1);
                assert_eq!(
                    Window::Hours(amount).rounded().get_start_time(ts, &hours),
                    nanos(rounded_hours)
                );
                let open = reference
                    .date_naive()
                    .and_time(NaiveTime::from_hms_opt(9, 30, 0).unwrap())
                    .and_utc();
                assert_eq!(
                    Window::Days(amount).rounded().get_start_time(ts, &hours),
                    nanos(open - Duration::days(amount - 1))
                );
                assert_eq!(
                    TimeWindow::Days(amount).get_start_time(ts, true, Some(&hours)),
                    nanos(open - Duration::days(amount - 1))
                );
            }
            if amount >= 10 {
                let minute = (reference.minute() as i64 / amount * amount) as u32;
                let interval = reference
                    .with_minute(minute)
                    .unwrap()
                    .with_second(0)
                    .unwrap()
                    .with_nanosecond(0)
                    .unwrap();
                assert_eq!(
                    TimeWindow::Minutes(amount).get_start_time(ts, true, None),
                    nanos(interval)
                );
            }
        }
    }
}
