use strategy_tester::indicators::trackers::{
    ChangeTracker, ExtremumTracker, HistoryTracker, SumTracker, VarianceTracker, WindowTracker,
};
use strategy_tester::indicators::window::Window;

const MINUTE: i64 = 60_000_000_000;

fn fx(x: f64) -> i64 {
    (x * 1_000_000.0).round() as i64
}

fn units(x: i64) -> f64 {
    x as f64 / 1_000_000.0
}

#[test]
fn test_extremum_tracker_max() {
    let mut tracker = ExtremumTracker::new_max(Window::Bars(3));

    tracker.push(1, fx(3.0));
    assert_eq!(tracker.get(), Some(fx(3.0)));

    tracker.push(2, fx(1.0));
    assert_eq!(tracker.get(), Some(fx(3.0)));

    tracker.push(3, fx(4.0));
    assert_eq!(tracker.get(), Some(fx(4.0)));
    // Deque should only have 4.0 (3 and 1 were removed)
    assert_eq!(tracker.candidates(), 1);

    tracker.push(4, fx(1.0));
    assert_eq!(tracker.get(), Some(fx(4.0)));
    assert_eq!(tracker.candidates(), 2); // [4, 1]

    tracker.push(5, fx(5.0));
    assert_eq!(tracker.get(), Some(fx(5.0)));
    assert_eq!(tracker.candidates(), 1); // [5]
}

#[test]
fn test_extremum_tracker_min() {
    let mut tracker = ExtremumTracker::new_min(Window::Bars(3));

    tracker.push(1, fx(5.0));
    assert_eq!(tracker.get(), Some(fx(5.0)));

    tracker.push(2, fx(3.0));
    assert_eq!(tracker.get(), Some(fx(3.0)));
    // 5.0 should be removed since 3.0 is smaller
    assert_eq!(tracker.candidates(), 1);

    tracker.push(3, fx(4.0));
    assert_eq!(tracker.get(), Some(fx(3.0)));
    assert_eq!(tracker.candidates(), 2); // [3, 4]

    tracker.push(4, fx(1.0));
    assert_eq!(tracker.get(), Some(fx(1.0)));
    assert_eq!(tracker.candidates(), 1); // [1]
}

#[test]
fn test_sum_tracker() {
    let mut tracker = SumTracker::new(Window::Bars(3));

    tracker.push(1, fx(10.0));
    assert_eq!(tracker.sum(), fx(10.0) as i128);
    assert_eq!(tracker.count(), 1);
    assert_eq!(tracker.average(), Some(fx(10.0)));

    tracker.push(2, fx(20.0));
    assert_eq!(tracker.sum(), fx(30.0) as i128);
    assert_eq!(tracker.average(), Some(fx(15.0)));

    tracker.push(3, fx(30.0));
    assert_eq!(tracker.sum(), fx(60.0) as i128);
    assert_eq!(tracker.average(), Some(fx(20.0)));

    // Fourth value should push out the first
    tracker.push(4, fx(40.0));
    assert_eq!(tracker.sum(), fx(90.0) as i128); // 20 + 30 + 40
    assert_eq!(tracker.count(), 3);
    assert_eq!(tracker.average(), Some(fx(30.0)));
}

#[test]
fn test_variance_tracker() {
    let mut tracker = VarianceTracker::new(Window::Bars(3));

    tracker.push(1, fx(2.0));
    tracker.push(2, fx(4.0));
    tracker.push(3, fx(6.0));

    // Mean = 4.0
    assert_eq!(tracker.mean(), Some(fx(4.0)));

    // Variance = ((2-4)^2 + (4-4)^2 + (6-4)^2) / 3 = (4 + 0 + 4) / 3 = 8/3
    let variance = units(tracker.variance().unwrap());
    assert!((variance - 8.0 / 3.0).abs() < 0.001);

    // Std dev = sqrt(8/3) ≈ 1.633
    let std_dev = units(tracker.std_dev().unwrap());
    assert!((std_dev - 1.633).abs() < 0.001);
}

/// A small deterministic generator of test values.
fn next(state: &mut u64) -> i64 {
    *state = state.wrapping_mul(6364136223846793005).wrapping_add(1442695040888963407);
    ((*state >> 33) % 41) as i64 - 20
}

#[test]
fn extremum_equals_brute_force_over_last_pushes() {
    for width in 0usize..7 {
        for track_max in [true, false] {
            let mut tracker = ExtremumTracker::new(Window::Bars(width), track_max);
            let mut pushed: Vec<i64> = Vec::new();
            let mut state: u64 = 17 + width as u64;
            for step in 0..400 {
                let value = next(&mut state);
                assert!(tracker.accepts(step));
                tracker.push(step, value);
                pushed.push(value);
                let from = pushed.len().saturating_sub(width);
                let window = &pushed[from..];
                let expected = if track_max {
                    window.iter().copied().max()
                } else {
                    window.iter().copied().min()
                };
                assert_eq!(tracker.get(), expected, "width {} step {}", width, step);
                assert!(tracker.candidates() <= window.len());
            }
        }
    }
}

#[test]
fn extremum_survives_a_dominated_run() {
    // 5 leaves the window of three although the deque never holds more than
    // two candidates.
    let mut tracker = ExtremumTracker::new_max(Window::Bars(3));
    for (ts, value) in [(1, 5), (2, 1), (3, 2), (4, 3)] {
        tracker.push(ts, value);
    }
    assert_eq!(tracker.get(), Some(3));
    let mut tracker = ExtremumTracker::new_min(Window::Bars(3));
    for (ts, value) in [(1, -5), (2, -1), (3, -2), (4, -3)] {
        tracker.push(ts, value);
    }
    assert_eq!(tracker.get(), Some(-3));
}

#[test]
fn extremum_over_a_duration_prunes_from_the_front() {
    let mut tracker = ExtremumTracker::new_max(Window::Minutes(5));
    let mut all: Vec<(i64, i64)> = Vec::new();
    let mut state: u64 = 99;
    for step in 0..200i64 {
        let ts = step * MINUTE + (step % 3) * 1_000;
        let value = next(&mut state);
        assert!(tracker.accepts(ts));
        tracker.push(ts, value);
        tracker.prune(ts);
        all.push((ts, value));
        let expected = all
            .iter()
            .filter(|(t, _)| *t >= ts - 5 * MINUTE && *t <= ts)
            .map(|(_, v)| *v)
            .max();
        assert_eq!(tracker.get(), expected);
    }
    assert!(!tracker.accepts(0));
    tracker.clear();
    assert_eq!(tracker.get(), None);
    assert!(tracker.accepts(0));
}

#[test]
fn trackers_with_a_window_of_zero_bars_are_never_ready() {
    let mut max = ExtremumTracker::new_max(Window::Bars(0));
    let mut sum = SumTracker::new(Window::Bars(0));
    let mut variance = VarianceTracker::new(Window::Bars(0));
    let mut change = ChangeTracker::absolute(Window::Bars(0));
    let mut history = HistoryTracker::new(Window::Bars(0));
    for ts in 0..5 {
        max.push(ts, 10 + ts);
        sum.push(ts, 10 + ts);
        variance.push(ts, 10 + ts);
        change.push(ts, 10 + ts);
        history.push(ts, 10 + ts);
        assert_eq!(max.get(), None);
        assert_eq!(sum.get(), None);
        assert_eq!(variance.get(), None);
        assert_eq!(change.get(), None);
        assert_eq!(history.get(), None);
        assert_eq!(sum.sum(), 0);
        assert_eq!(sum.count(), 0);
    }
}

#[test]
fn empty_trackers_are_not_ready() {
    assert_eq!(ExtremumTracker::new_min(Window::Bars(3)).get(), None);
    assert_eq!(SumTracker::new(Window::Hours(1)).get(), None);
    assert_eq!(VarianceTracker::new(Window::Days(1)).get(), None);
    assert_eq!(VarianceTracker::new(Window::Days(1)).variance(), None);
    assert_eq!(VarianceTracker::new(Window::Days(1)).mean(), None);
    assert_eq!(ChangeTracker::percentage(Window::Bars(3)).get(), None);
    assert_eq!(ChangeTracker::percentage(Window::Bars(3)).average(), None);
    assert_eq!(HistoryTracker::new(Window::Bars(3)).get(), None);
    assert!(HistoryTracker::new(Window::Bars(3)).is_empty());
}

#[test]
fn sum_tracker_mean_is_the_mean_of_the_retained_window() {
    let mut tracker = SumTracker::new(Window::Bars(4));
    let mut pushed: Vec<i64> = Vec::new();
    let mut state: u64 = 5;
    for step in 0..300 {
        let value = next(&mut state) * 333_333;
        tracker.push(step, value);
        pushed.push(value);
        let from = pushed.len().saturating_sub(4);
        let window = &pushed[from..];
        let total: i128 = window.iter().map(|v| *v as i128).sum();
        assert_eq!(tracker.sum(), total);
        assert_eq!(tracker.count(), window.len());
        assert_eq!(tracker.get(), Some(total.div_euclid(window.len() as i128) as i64));
    }
}

#[test]
fn sum_tracker_rounds_the_mean_down() {
    let mut tracker = SumTracker::new(Window::Bars(2));
    tracker.push(1, -3);
    tracker.push(2, 0);
    assert_eq!(tracker.get(), Some(-2));
    tracker.push(3, 3);
    assert_eq!(tracker.get(), Some(1));
}

#[test]
fn pruning_by_time_retains_exactly_the_window() {
    let mut tracker = SumTracker::new(Window::Minutes(10));
    let mut history = HistoryTracker::new(Window::Minutes(10));
    let mut all: Vec<(i64, i64)> = Vec::new();
    for step in 0..50i64 {
        let ts = step * 3 * MINUTE;
        tracker.push(ts, step);
        tracker.prune(ts);
        history.push(ts, step);
        history.prune(ts);
        all.push((ts, step));
        let expected: Vec<(i64, i64)> = all
            .iter()
            .copied()
            .filter(|(t, _)| *t >= ts - 10 * MINUTE && *t <= ts)
            .collect();
        let retained: Vec<(i64, i64)> = history.values().iter().copied().collect();
        assert_eq!(retained, expected);
        assert_eq!(tracker.count(), expected.len());
        assert_eq!(tracker.sum(), expected.iter().map(|(_, v)| *v as i128).sum::<i128>());
        assert_eq!(history.len(), expected.len());
    }
    // the lower end of the window is inclusive
    let mut edge = SumTracker::new(Window::Minutes(10));
    edge.push(0, 7);
    edge.push(10 * MINUTE, 9);
    edge.prune(10 * MINUTE);
    assert_eq!(edge.count(), 2);
    edge.prune(10 * MINUTE + 1);
    assert_eq!(edge.count(), 1);
    assert_eq!(edge.get(), Some(9));
}

#[test]
fn pruning_a_count_window_changes_nothing() {
    let mut tracker = SumTracker::new(Window::Bars(3));
    tracker.push(1, 1);
    tracker.push(2, 2);
    tracker.prune(1_000_000 * MINUTE);
    assert_eq!(tracker.count(), 2);
    let mut max = ExtremumTracker::new_max(Window::Bars(3));
    max.push(1, 1);
    max.prune(1_000_000 * MINUTE);
    assert_eq!(max.get(), Some(1));
}

#[test]
fn change_tracker_records_gains_and_losses() {
    let mut tracker = ChangeTracker::absolute(Window::Bars(3));
    tracker.push(1, fx(10.0));
    assert_eq!(tracker.get(), None);
    assert_eq!(tracker.average_gain(), 0);
    assert_eq!(tracker.average_loss(), 0);
    tracker.push(2, fx(12.0));
    assert_eq!(tracker.get(), Some(fx(2.0)));
    tracker.push(3, fx(9.0));
    assert_eq!(tracker.get(), Some(fx(-3.0)));
    tracker.push(4, fx(10.0));
    assert_eq!(tracker.sum(), fx(0.0) as i128);
    assert_eq!(tracker.sum_gains(), fx(3.0) as i128);
    assert_eq!(tracker.sum_losses(), fx(3.0) as i128);
    assert_eq!(tracker.average(), Some(0));
    assert_eq!(tracker.average_gain(), fx(1.0));
    assert_eq!(tracker.average_loss(), fx(1.0));
    tracker.push(5, fx(15.0));
    // the change of +2 has left the window of three changes
    assert_eq!(tracker.count(), 3);
    assert_eq!(tracker.sum_gains(), fx(6.0) as i128);
    let changes: Vec<(i64, i64)> = tracker.changes().iter().copied().collect();
    assert_eq!(changes, vec![(3, fx(-3.0)), (4, fx(1.0)), (5, fx(5.0))]);
    tracker.clear();
    assert_eq!(tracker.count(), 0);
    tracker.push(6, fx(1.0));
    assert_eq!(tracker.get(), None);
}

#[test]
fn change_tracker_percentages() {
    let mut tracker = ChangeTracker::percentage(Window::Bars(5));
    tracker.push(1, fx(200.0));
    tracker.push(2, fx(250.0));
    assert_eq!(tracker.get(), Some(fx(25.0)));
    tracker.push(3, fx(200.0));
    assert_eq!(tracker.get(), Some(fx(-20.0)));
    tracker.push(4, 0);
    assert_eq!(tracker.get(), Some(fx(-100.0)));
    // a change from zero counts as no change
    tracker.push(5, fx(3.0));
    assert_eq!(tracker.get(), Some(0));
    assert!(tracker.uses_percentage());
    assert_eq!(tracker.window(), Window::Bars(5));
}

#[test]
fn variance_tracker_follows_the_window() {
    let mut tracker = VarianceTracker::new(Window::Bars(2));
    tracker.push(1, fx(1.0));
    assert_eq!(tracker.std_dev(), Some(0));
    tracker.push(2, fx(3.0));
    assert_eq!(tracker.mean(), Some(fx(2.0)));
    assert_eq!(tracker.variance(), Some(fx(1.0)));
    assert_eq!(tracker.get(), Some(fx(1.0)));
    tracker.push(3, fx(7.0));
    assert_eq!(tracker.count(), 2);
    assert_eq!(tracker.mean(), Some(fx(5.0)));
    assert_eq!(tracker.variance(), Some(fx(4.0)));
    assert_eq!(tracker.std_dev(), Some(fx(2.0)));
    let mut timed = VarianceTracker::new(Window::Minutes(1));
    timed.push(0, fx(1.0));
    timed.push(2 * MINUTE, fx(5.0));
    timed.prune(2 * MINUTE);
    assert_eq!(timed.count(), 1);
    assert_eq!(timed.std_dev(), Some(0));
    timed.clear();
    assert_eq!(timed.get(), None);
}

#[test]
fn trackers_answer_through_the_shared_interface() {
    fn feed<T: WindowTracker>(tracker: &mut T) -> Option<i64> {
        WindowTracker::push(tracker, 1, 4);
        WindowTracker::push(tracker, 2, 8);
        WindowTracker::prune(tracker, 2);
        WindowTracker::get(tracker)
    }
    assert_eq!(feed(&mut SumTracker::new(Window::Bars(2))), Some(6));
    assert_eq!(feed(&mut ExtremumTracker::new_min(Window::Bars(2))), Some(4));
    assert_eq!(feed(&mut ExtremumTracker::new_max(Window::Bars(2))), Some(8));
    assert_eq!(feed(&mut VarianceTracker::new(Window::Bars(2))), Some(2));
    assert_eq!(feed(&mut ChangeTracker::absolute(Window::Bars(2))), Some(4));
    assert_eq!(feed(&mut HistoryTracker::new(Window::Bars(2))), Some(8));
    let mut sum = SumTracker::new(Window::Bars(2));
    assert!(WindowTracker::in_window(&sum, &Window::Bars(1), 5, 0));
    assert!(!WindowTracker::in_window(&sum, &Window::Minutes(1), 5 * MINUTE, 0));
    WindowTracker::clear(&mut sum);
    assert_eq!(WindowTracker::get(&sum), None);
}

#[test]
fn trackers_take_a_window_with_or_without_a_rounding_flag() {
    let mut max = ExtremumTracker::new_max(Window::Bars(2).rounded());
    let mut min = ExtremumTracker::new(Window::Bars(2).unrounded(), false);
    let mut variance = VarianceTracker::new(Window::Bars(2).rounded());
    let mut change = ChangeTracker::new(Window::Bars(2).rounded(), false);
    for (ts, value) in [(1, 4), (2, 8), (3, 6)] {
        max.push(ts, value);
        min.push(ts, value);
        variance.push(ts, value);
        change.push(ts, value);
    }
    assert_eq!(max.window(), Window::Bars(2));
    assert_eq!(max.get(), Some(8));
    assert!(max.tracks_max());
    assert_eq!(min.get(), Some(6));
    assert_eq!(variance.window(), Window::Bars(2));
    assert_eq!(variance.mean(), Some(7));
    assert_eq!(change.window(), Window::Bars(2));
    assert_eq!(change.sum(), 2);
    assert_eq!(ChangeTracker::absolute(Window::Minutes(3).rounded()).window(), Window::Minutes(3));
    assert_eq!(ChangeTracker::percentage(Window::Hours(3)).window(), Window::Hours(3));
}
