use strategy_tester::fixed::{
    div_count, div_floor, floor_ratio, fx_add, fx_div, fx_mul, fx_mul_int, fx_sqrt, fx_sub, isqrt,
    saturate, SCALE,
};

fn fx(x: f64) -> i64 {
    (x * 1_000_000.0).round() as i64
}

#[test]
fn sums_and_differences_saturate() {
    assert_eq!(fx_add(fx(1.5), fx(2.25)), fx(3.75));
    assert_eq!(fx_sub(fx(1.5), fx(2.25)), fx(-0.75));
    assert_eq!(fx_add(i64::MAX, 1), i64::MAX);
    assert_eq!(fx_add(i64::MIN, -1), i64::MIN);
    assert_eq!(fx_sub(i64::MIN, 1), i64::MIN);
    assert_eq!(fx_sub(i64::MAX, -1), i64::MAX);
    assert_eq!(saturate(i128::MAX), i64::MAX);
    assert_eq!(saturate(i128::MIN), i64::MIN);
    assert_eq!(saturate(-7), -7);
}

#[test]
fn products_and_quotients_round_down() {
    assert_eq!(SCALE, 1_000_000);
    assert_eq!(fx_mul(fx(1.5), fx(2.0)), fx(3.0));
    assert_eq!(fx_mul(1, 1), 0);
    assert_eq!(fx_mul(-1, 1), -1);
    assert_eq!(fx_mul(i64::MAX, i64::MAX), i64::MAX);
    assert_eq!(fx_mul(i64::MAX, i64::MIN), i64::MIN);
    assert_eq!(fx_mul_int(fx(1.5), 3), fx(4.5));
    assert_eq!(fx_mul_int(i64::MIN, 2), i64::MIN);
    assert_eq!(fx_div(fx(3.0), fx(2.0)), Some(fx(1.5)));
    assert_eq!(fx_div(fx(1.0), fx(3.0)), Some(333_333));
    assert_eq!(fx_div(fx(-1.0), fx(3.0)), Some(-333_334));
    assert_eq!(fx_div(fx(1.0), fx(-3.0)), Some(-333_334));
    assert_eq!(fx_div(fx(-1.0), fx(-3.0)), Some(333_333));
    assert_eq!(fx_div(fx(1.0), 0), None);
    assert_eq!(fx_div(i64::MAX, 1), Some(i64::MAX));
    assert_eq!(div_floor(7, 2), 3);
    assert_eq!(div_floor(-7, 2), -4);
    assert_eq!(div_floor(i128::MIN, 1), i128::MIN);
    assert_eq!(div_count(-7, 2), -4);
    assert_eq!(div_count(i128::MAX, 1), i64::MAX);
    assert_eq!(floor_ratio(7, 2), 3);
    assert_eq!(floor_ratio(-7, 2), -4);
    assert_eq!(floor_ratio(7, -2), -4);
    assert_eq!(floor_ratio(7, 0), i64::MAX);
    assert_eq!(floor_ratio(-7, 0), i64::MIN);
    assert_eq!(floor_ratio(0, 0), 0);
    assert_eq!(floor_ratio(i64::MIN, -1), i64::MAX);
}

#[test]
fn square_roots_round_down() {
    for (n, root) in [(0u128, 0u64), (1, 1), (3, 1), (4, 2), (15, 3), (16, 4), (17, 4)] {
        assert_eq!(isqrt(n), root);
    }
    assert_eq!(isqrt(u128::MAX), u64::MAX);
    assert_eq!(isqrt((u64::MAX as u128) * (u64::MAX as u128)), u64::MAX);
    assert_eq!(isqrt((u64::MAX as u128) * (u64::MAX as u128) - 1), u64::MAX - 1);
    assert_eq!(fx_sqrt(fx(4.0)), Some(fx(2.0)));
    assert_eq!(fx_sqrt(fx(2.0)), Some(1_414_213));
    assert_eq!(fx_sqrt(0), Some(0));
    assert_eq!(fx_sqrt(-1), None);
    assert_eq!(fx_sqrt(i64::MAX), Some(3_037_000_499_976));
}
