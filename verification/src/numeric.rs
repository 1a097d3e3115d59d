//! Integer helpers shared by the whole simulation: bounds, rounding and square roots.

use vstd::prelude::*;

verus! {

/// Largest magnitude of a stored length or speed, in thousandths of a pixel.
pub const LIMIT: i64 = 1_000_000_000;

/// Microseconds in one second.
pub const MICROS_PER_SECOND: u64 = 1_000_000;

/// Absolute value of a mathematical integer.
pub open spec fn magnitude(x: int) -> int {
    if x < 0 {
        -x
    } else {
        x
    }
}

/// `x` moved into the interval `[lo, hi]`.
pub open spec fn clamped(x: int, lo: int, hi: int) -> int {
    if x < lo {
        lo
    } else if x > hi {
        hi
    } else {
        x
    }
}

/// The smaller of two integers.
pub open spec fn lesser(a: int, b: int) -> int {
    if a <= b {
        a
    } else {
        b
    }
}

/// The sum of two times, held at the largest time that can be stored.
pub open spec fn time_sum(a: u64, b: u64) -> u64 {
    if a + b > u64::MAX {
        u64::MAX
    } else {
        (a + b) as u64
    }
}

/// The difference of two times, held at zero.
pub open spec fn time_left(a: u64, b: u64) -> u64 {
    if a >= b {
        (a - b) as u64
    } else {
        0
    }
}

/// Quotient of `a` by a positive `b`, rounded toward zero.
pub open spec fn quotient(a: int, b: int) -> int {
    if a >= 0 {
        a / b
    } else {
        -((-a) / b)
    }
}

/// `r` is the square root of `n` rounded down.
pub open spec fn is_floor_sqrt(n: int, r: int) -> bool {
    0 <= r && r * r <= n && n < (r + 1) * (r + 1)
}

/// The square root of `n` rounded down.
pub open spec fn floor_sqrt(n: int) -> int {
    choose|r: int| is_floor_sqrt(n, r)
}

/// The square root of `n` rounded up.
pub open spec fn ceil_sqrt(n: int) -> int {
    let r = floor_sqrt(n);
    if r * r == n {
        r
    } else {
        r + 1
    }
}

/// A product is bounded by the product of the bounds of its factors.
pub proof fn lemma_product_bound(a: int, b: int, ma: int, mb: int)
    by (nonlinear_arith)
    requires
        -ma <= a <= ma,
        -mb <= b <= mb,
    ensures
        -(ma * mb) <= a * b <= ma * mb,
{
}

/// A number and its negation have the same square.
pub proof fn lemma_negated_square(x: int)
    by (nonlinear_arith)
    ensures
        (-x) * (-x) == x * x,
        x * x >= 0,
{
}

/// Squaring keeps the order of non-negative integers.
pub proof fn lemma_square_monotone(a: int, b: int)
    by (nonlinear_arith)
    requires
        0 <= a <= b,
    ensures
        a * a <= b * b,
{
}

/// Every non-negative integer has a rounded-down square root.
pub proof fn lemma_floor_sqrt_exists(n: int)
    requires
        n >= 0,
    ensures
        is_floor_sqrt(n, floor_sqrt(n)),
    decreases n,
{
    if n == 0 {
        assert(is_floor_sqrt(0, 0));
    } else {
        lemma_floor_sqrt_exists(n - 1);
        let r = floor_sqrt(n - 1);
        if n < (r + 1) * (r + 1) {
            assert(is_floor_sqrt(n, r));
        } else {
            assert((r + 2) * (r + 2) == (r + 1) * (r + 1) + 2 * r + 3) by (nonlinear_arith);
            assert(is_floor_sqrt(n, r + 1));
        }
    }
}

/// The rounded-down square root is unique.
pub proof fn lemma_floor_sqrt_unique(n: int, r: int)
    requires
        is_floor_sqrt(n, r),
    ensures
        r == floor_sqrt(n),
{
    let s = floor_sqrt(n);
    assert(is_floor_sqrt(n, s));
    if r < s {
        lemma_square_monotone(r + 1, s);
    } else if s < r {
        lemma_square_monotone(s + 1, r);
    }
}

/// A number whose square does not exceed `n` is no larger than the rounded-down root of `n`.
pub proof fn lemma_floor_sqrt_lower(n: int, k: int)
    requires
        0 <= k,
        k * k <= n,
    ensures
        k <= floor_sqrt(n),
{
    lemma_floor_sqrt_exists(n);
    let r = floor_sqrt(n);
    if r < k {
        lemma_square_monotone(r + 1, k);
    }
}

/// The rounded-up root of `n` is the least number whose square reaches `n`.
pub proof fn lemma_ceil_sqrt(n: int)
    requires
        n >= 0,
    ensures
        0 <= ceil_sqrt(n),
        ceil_sqrt(n) * ceil_sqrt(n) >= n,
        n > 0 ==> ceil_sqrt(n) > 0 && (ceil_sqrt(n) - 1) * (ceil_sqrt(n) - 1) < n,
{
    lemma_floor_sqrt_exists(n);
    let r = floor_sqrt(n);
    if r * r != n {
        assert((r + 1) * (r + 1) > n);
    } else if n > 0 {
        assert(r > 0) by (nonlinear_arith)
            requires
                r * r == n,
                n > 0,
                r >= 0,
        ;
        assert((r - 1) * (r - 1) < r * r) by (nonlinear_arith)
            requires
                r > 0,
        ;
    }
}

/// Absolute value of a machine integer.
pub fn abs_i64(x: i64) -> (r: i64)
    requires
        x > i64::MIN,
    ensures
        r == magnitude(x as int),
{
    if x < 0 {
        -x
    } else {
        x
    }
}

/// `x` moved into `[lo, hi]`.
pub fn clamp_i128(x: i128, lo: i64, hi: i64) -> (r: i64)
    requires
        lo <= hi,
    ensures
        r == clamped(x as int, lo as int, hi as int),
{
    if x < lo as i128 {
        lo
    } else if x > hi as i128 {
        hi
    } else {
        x as i64
    }
}

/// Square root of `n`, rounded down.
pub fn isqrt(n: u128) -> (r: u64)
    requires
        n < 0x4000_0000_0000_0000_0000_0000_0000_0000,
    ensures
        r == floor_sqrt(n as int),
        is_floor_sqrt(n as int, r as int),
{
    let mut lo: u128 = 0;
    let mut hi: u128 = 0x8000_0000_0000_0000;
    assert(hi * hi == 0x4000_0000_0000_0000_0000_0000_0000_0000) by (nonlinear_arith)
        requires
            hi == 0x8000_0000_0000_0000,
    ;
    while hi - lo > 1
        invariant
            lo < hi <= 0x8000_0000_0000_0000,
            lo * lo <= n,
            n < hi * hi,
        decreases hi - lo,
    {
        let mid: u128 = lo + (hi - lo) / 2;
        assert(mid * mid <= 0x4000_0000_0000_0000_0000_0000_0000_0000) by (nonlinear_arith)
            requires
                mid <= 0x8000_0000_0000_0000,
        ;
        if mid * mid <= n {
            lo = mid;
        } else {
            hi = mid;
        }
    }
    proof {
        lemma_floor_sqrt_unique(n as int, lo as int);
    }
    lo as u64
}

/// Square root of `n`, rounded up.
pub fn isqrt_ceil(n: u128) -> (r: u64)
    requires
        n < 0x4000_0000_0000_0000_0000_0000_0000_0000,
    ensures
        r == ceil_sqrt(n as int),
{
    let root: u64 = isqrt(n);
    let wide: u128 = root as u128;
    assert(wide * wide <= n);
    if wide * wide == n {
        root
    } else {
        assert(root < 0x8000_0000_0000_0000) by (nonlinear_arith)
            requires
                root * root < 0x4000_0000_0000_0000_0000_0000_0000_0000,
        ;
        root + 1
    }
}

} // verus!
