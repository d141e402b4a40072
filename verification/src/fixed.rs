//! Fixed-point arithmetic.
//!
//! A quantity `q` is stored as the integer `q * SCALE`. Sums and differences
//! are exact integers; products and quotients are rounded down (towards
//! negative infinity). A result that leaves the range of `i64` saturates at
//! the nearest end of the range.

use vstd::prelude::*;

verus! {

/// The integer that represents `1.0`.
pub const SCALE: i64 = 1_000_000;

/// The value of `x` forced into the range of `i64`.
pub open spec fn clamp_i64(x: int) -> i64 {
    if x < i64::MIN {
        i64::MIN
    } else if x > i64::MAX {
        i64::MAX
    } else {
        x as i64
    }
}

/// The mathematical floor of `a / b` for a non-zero divisor of either sign.
pub open spec fn floor_quot(a: int, b: int) -> int
    recommends
        b != 0,
{
    if b > 0 {
        a / b
    } else {
        (-a) / (-b)
    }
}

/// The fixed-point product of two fixed-point numbers.
pub open spec fn spec_fx_mul(a: i64, b: i64) -> i64 {
    clamp_i64((a * b) / (SCALE as int))
}

/// The fixed-point quotient of two fixed-point numbers, `b` non-zero.
pub open spec fn spec_fx_div(a: i64, b: i64) -> i64
    recommends
        b != 0,
{
    clamp_i64(floor_quot(a * SCALE, b as int))
}

/// How many times `b` goes into `a`, rounded down and saturating. A zero
/// divisor gives the end of the range on the side of `a`, and zero for zero.
pub open spec fn spec_floor_ratio(a: i64, b: i64) -> i64 {
    if b == 0 {
        if a > 0 {
            i64::MAX
        } else if a < 0 {
            i64::MIN
        } else {
            0
        }
    } else {
        clamp_i64(floor_quot(a as int, b as int))
    }
}

/// `r` is the largest integer with `r * r <= n`.
pub open spec fn is_floor_sqrt(n: int, r: int) -> bool {
    0 <= r && r * r <= n < (r + 1) * (r + 1)
}

/// The square root of a non-negative integer, rounded down.
pub open spec fn floor_sqrt(n: int) -> int {
    choose|r: int| is_floor_sqrt(n, r)
}

/// The value of `x` forced into the range of `u128`.
pub open spec fn clamp_u128(x: int) -> u128 {
    if x < 0 {
        0
    } else if x > u128::MAX {
        u128::MAX
    } else {
        x as u128
    }
}

/// The square root of a non-negative fixed-point number, rounded down.
pub open spec fn spec_fx_sqrt(a: i64) -> i64
    recommends
        a >= 0,
{
    floor_sqrt(a * SCALE) as i64
}

/// A number has one rounded-down square root only.
pub proof fn lemma_floor_sqrt_unique(n: int, r: int)
    requires
        is_floor_sqrt(n, r),
    ensures
        floor_sqrt(n) == r,
{
    let q = floor_sqrt(n);
    assert(is_floor_sqrt(n, q));
    assert(q == r) by (nonlinear_arith)
        requires
            0 <= r,
            0 <= q,
            r * r <= n < (r + 1) * (r + 1),
            q * q <= n < (q + 1) * (q + 1),
    ;
}

/// The product of two 64-bit integers always fits in 128 bits.
pub proof fn lemma_product_fits(a: int, b: int)
    requires
        i64::MIN <= a <= i64::MAX,
        i64::MIN <= b <= i64::MAX,
    ensures
        -0x4000_0000_0000_0000_0000_0000_0000_0000 <= a * b
            <= 0x4000_0000_0000_0000_0000_0000_0000_0000,
{
    assert(-0x4000_0000_0000_0000_0000_0000_0000_0000 <= a * b
        <= 0x4000_0000_0000_0000_0000_0000_0000_0000) by (nonlinear_arith)
        requires
            -0x8000_0000_0000_0000 <= a <= 0x7fff_ffff_ffff_ffff,
            -0x8000_0000_0000_0000 <= b <= 0x7fff_ffff_ffff_ffff,
    ;
}

/// Narrows a wide integer to `i64`, saturating at the ends of the range.
pub fn saturate(x: i128) -> (r: i64)
    ensures
        r == clamp_i64(x as int),
{
    if x < i64::MIN as i128 {
        i64::MIN
    } else if x > i64::MAX as i128 {
        i64::MAX
    } else {
        x as i64
    }
}

/// `a + b`, saturating.
pub fn fx_add(a: i64, b: i64) -> (r: i64)
    ensures
        r == clamp_i64(a + b),
{
    saturate(a as i128 + b as i128)
}

/// `a - b`, saturating.
pub fn fx_sub(a: i64, b: i64) -> (r: i64)
    ensures
        r == clamp_i64(a - b),
{
    saturate(a as i128 - b as i128)
}

/// The product of a fixed-point number and a plain integer count, saturating.
pub fn fx_mul_int(a: i64, n: i64) -> (r: i64)
    ensures
        r == clamp_i64(a * n),
{
    proof {
        lemma_product_fits(a as int, n as int);
    }
    saturate(a as i128 * n as i128)
}

/// Floor division of a wide integer by a positive divisor.
pub fn div_floor(a: i128, b: i128) -> (q: i128)
    requires
        b > 0,
    ensures
        q == (a as int) / (b as int),
{
    proof {
        // the quotient by a positive divisor is no larger in magnitude
        assert(i128::MIN <= (a as int) / (b as int) <= i128::MAX) by (nonlinear_arith)
            requires
                b > 0,
                i128::MIN <= a <= i128::MAX,
        ;
    }
    match a.checked_div_euclid(b) {
        Some(q) => q,
        None => a,
    }
}

/// The remainder of floor division by a positive divisor: never negative.
pub fn rem_floor(a: i64, b: i64) -> (r: i64)
    requires
        b > 0,
    ensures
        r == (a as int) % (b as int),
        0 <= r < b,
{
    match a.checked_rem_euclid(b) {
        Some(r) => r,
        None => 0,
    }
}

/// The product of two fixed-point numbers, rounded down, saturating.
pub fn fx_mul(a: i64, b: i64) -> (r: i64)
    ensures
        r == spec_fx_mul(a, b),
{
    proof {
        lemma_product_fits(a as int, b as int);
    }
    let p: i128 = a as i128 * b as i128;
    saturate(div_floor(p, SCALE as i128))
}

/// The quotient of two fixed-point numbers, rounded down, saturating; `None`
/// exactly when the divisor is zero.
pub fn fx_div(a: i64, b: i64) -> (r: Option<i64>)
    ensures
        b == 0 ==> r.is_none(),
        b != 0 ==> r == Some(spec_fx_div(a, b)),
{
    if b == 0 {
        return None;
    }
    proof {
        lemma_product_fits(a as int, SCALE as int);
    }
    let n: i128 = a as i128 * SCALE as i128;
    if b > 0 {
        Some(saturate(div_floor(n, b as i128)))
    } else {
        Some(saturate(div_floor(-n, -(b as i128))))
    }
}

/// How many times `b` goes into `a`, rounded down and saturating.
pub fn floor_ratio(a: i64, b: i64) -> (r: i64)
    ensures
        r == spec_floor_ratio(a, b),
{
    if b == 0 {
        if a > 0 {
            i64::MAX
        } else if a < 0 {
            i64::MIN
        } else {
            0
        }
    } else if b > 0 {
        saturate(div_floor(a as i128, b as i128))
    } else {
        saturate(div_floor(-(a as i128), -(b as i128)))
    }
}

/// The quotient of a wide integer by a positive count, rounded down,
/// saturating.
pub fn div_count(total: i128, count: usize) -> (r: i64)
    requires
        count > 0,
    ensures
        r == clamp_i64((total as int) / (count as int)),
{
    saturate(div_floor(total, count as i128))
}

/// The integer square root: the largest `r` with `r * r <= n`.
pub fn isqrt(n: u128) -> (r: u64)
    ensures
        r == floor_sqrt(n as int),
        is_floor_sqrt(n as int, r as int),
{
    let mut lo: u128 = 0;
    let mut hi: u128 = 0x1_0000_0000_0000_0000;
    while hi - lo > 1
        invariant
            lo < hi <= 0x1_0000_0000_0000_0000,
            lo * lo <= n,
            n < hi * hi,
        decreases hi - lo,
    {
        let mid: u128 = lo + (hi - lo) / 2;
        assert(mid * mid <= 0xffff_ffff_ffff_ffff * 0xffff_ffff_ffff_ffff) by (nonlinear_arith)
            requires
                0 <= mid <= 0xffff_ffff_ffff_ffff,
        ;
        if mid * mid <= n {
            lo = mid;
        } else {
            hi = mid;
        }
    }
    proof {
        lemma_floor_sqrt_unique(n as int, lo as int);
    }
    lo as u64
}

/// The square root of a non-negative fixed-point number, rounded down; `None`
/// exactly when `a` is negative.
pub fn fx_sqrt(a: i64) -> (r: Option<i64>)
    ensures
        a < 0 ==> r.is_none(),
        a >= 0 ==> r == Some(spec_fx_sqrt(a)),
{
    if a < 0 {
        return None;
    }
    proof {
        lemma_product_fits(a as int, SCALE as int);
    }
    let n: u128 = a as u128 * SCALE as u128;
    let root: u64 = isqrt(n);
    proof {
        // root * root <= a * SCALE < 2^63 * 2^20, so root < 2^42
        assert(root < 0x400_0000_0000) by (nonlinear_arith)
            requires
                root * root <= n,
                n <= 0x7fff_ffff_ffff_ffff * 1_000_000,
                root >= 0,
        ;
    }
    Some(root as i64)
}

} // verus!
