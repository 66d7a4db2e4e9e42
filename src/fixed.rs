//! Fixed-point quantities and the integer arithmetic the motion model rests on.
//!
//! Lengths are in thousandths of a surface unit, times in microseconds and
//! angles in micro-radians, so that every step of the model is exact integer
//! arithmetic.
use vstd::prelude::*;

verus! {

/// Length of one surface unit, in the model's length quantum.
pub const UNIT: i64 = 1000;

/// Microseconds in one second.
pub const MICROS_PER_SECOND: i128 = 1_000_000;

/// Largest magnitude of a position, velocity or target coordinate.
pub const COORD_LIMIT: i64 = 1_000_000_000_000;

/// Largest magnitude of a sprite's size.
pub const SIZE_LIMIT: i64 = 250_000_000_000;

/// Largest width or height of an arena.
pub const EXTENT_LIMIT: i64 = 500_000_000_000;

pub open spec fn abs(a: int) -> int {
    if a >= 0 {
        a
    } else {
        -a
    }
}

/// Quotient rounded toward zero, as Rust's integer `/` rounds.
pub open spec fn div_trunc(a: int, d: int) -> int {
    if a >= 0 {
        a / d
    } else {
        -((-a) / d)
    }
}

/// Half of a length, rounded down.
pub open spec fn half(a: int) -> int {
    a / 2
}

/// `p` brought into `[lo, hi]`; where `lo > hi` the result is `lo`.
pub open spec fn clamp(p: int, lo: int, hi: int) -> int {
    let below = if p < hi {
        p
    } else {
        hi
    };
    if below > lo {
        below
    } else {
        lo
    }
}

/// Distance covered in `dt` microseconds at velocity `v` per second.
pub open spec fn travel(v: int, dt: int) -> int {
    div_trunc(v * dt, MICROS_PER_SECOND as int)
}

/// Integer square root: the largest `r` with `r * r <= n`.
pub open spec fn isqrt(n: int) -> int
    decreases n,
{
    if n <= 0 {
        0
    } else {
        let r = isqrt(n - 1);
        if (r + 1) * (r + 1) <= n {
            r + 1
        } else {
            r
        }
    }
}

proof fn lemma_isqrt_step(n: int, r: int, s: int) by (nonlinear_arith)
    requires
        n > 0,
        r >= 0,
        r * r <= n - 1,
        n - 1 < (r + 1) * (r + 1),
        s == (if (r + 1) * (r + 1) <= n {
            r + 1
        } else {
            r
        }),
    ensures
        s * s <= n,
        n < (s + 1) * (s + 1),
{
}

/// `isqrt(n)` is bracketed by consecutive squares around `n`.
pub proof fn lemma_isqrt_bounds(n: int)
    requires
        n >= 0,
    ensures
        isqrt(n) >= 0,
        isqrt(n) * isqrt(n) <= n,
        n < (isqrt(n) + 1) * (isqrt(n) + 1),
    decreases n,
{
    if n > 0 {
        lemma_isqrt_bounds(n - 1);
        lemma_isqrt_step(n, isqrt(n - 1), isqrt(n));
    }
}

proof fn lemma_square_bracket_unique(n: int, a: int, b: int) by (nonlinear_arith)
    requires
        a >= 0,
        b >= 0,
        a * a <= n,
        n < (a + 1) * (a + 1),
        b * b <= n,
        n < (b + 1) * (b + 1),
    ensures
        a == b,
{
    if a < b {
        assert((a + 1) * (a + 1) <= b * b);
    } else if b < a {
        assert((b + 1) * (b + 1) <= a * a);
    }
}

/// The only number bracketed by consecutive squares around `n` is `isqrt(n)`.
pub proof fn lemma_isqrt_unique(n: int, r: int)
    requires
        r >= 0,
        r * r <= n,
        n < (r + 1) * (r + 1),
    ensures
        r == isqrt(n),
{
    lemma_isqrt_bounds(n);
    lemma_square_bracket_unique(n, r, isqrt(n));
}

/// A quotient rounded toward zero keeps the sign of the numerator and is no
/// larger in magnitude.
pub proof fn lemma_div_trunc_bound(a: int, d: int)
    requires
        d >= 1,
    ensures
        abs(div_trunc(a, d)) <= abs(a),
        a >= 0 ==> div_trunc(a, d) >= 0,
        a <= 0 ==> div_trunc(a, d) <= 0,
{
    if a >= 0 {
        vstd::arithmetic::div_mod::lemma_div_nonincreasing(a, d);
        vstd::arithmetic::div_mod::lemma_div_pos_is_pos(a, d);
    } else {
        vstd::arithmetic::div_mod::lemma_div_nonincreasing(-a, d);
        vstd::arithmetic::div_mod::lemma_div_pos_is_pos(-a, d);
    }
}

/// `roll * span / scale` lies in `[0, span]` when `roll` is below `scale`.
pub proof fn lemma_scaled_fraction(roll: int, span: int, scale: int)
    requires
        0 <= roll < scale,
        span >= 0,
    ensures
        0 <= (roll * span) / scale <= span,
{
    vstd::arithmetic::mul::lemma_mul_inequality(roll, scale, span);
    assert(roll * span >= 0) by (nonlinear_arith)
        requires
            roll >= 0,
            span >= 0,
    ;
    vstd::arithmetic::div_mod::lemma_div_pos_is_pos(roll * span, scale);
    vstd::arithmetic::div_mod::lemma_div_is_ordered(roll * span, scale * span, scale);
    vstd::arithmetic::mul::lemma_mul_is_commutative(scale, span);
    vstd::arithmetic::div_mod::lemma_div_by_multiple(span, scale);
}

/// Integer square root of `n`, for `n < 2^84`.
pub fn sqrt_floor(n: u128) -> (r: u128)
    requires
        n < 0x1000000000000000000000u128,
    ensures
        r == isqrt(n as int),
        r < 0x40000000000u128,
{
    let mut lo: u128 = 0;
    let mut hi: u128 = 0x40000000000u128;
    assert(n < hi * hi);
    while hi - lo > 1
        invariant
            lo < hi <= 0x40000000000u128,
            lo * lo <= n,
            n < hi * hi,
        decreases hi - lo,
    {
        let mid: u128 = lo + (hi - lo) / 2;
        assert(mid * mid <= 0x10000000000000000000000u128) by (nonlinear_arith)
            requires
                mid < 0x40000000000u128,
        ;
        if mid * mid <= n {
            lo = mid;
        } else {
            hi = mid;
        }
    }
    proof {
        lemma_isqrt_unique(n as int, lo as int);
    }
    lo
}

/// `a / d` rounded toward zero.
pub fn div_trunc_i128(a: i128, d: i128) -> (q: i128)
    requires
        a > i128::MIN,
        d > 0,
    ensures
        q == div_trunc(a as int, d as int),
{
    if a >= 0 {
        a / d
    } else {
        let m: i128 = -a;
        -(m / d)
    }
}

/// Distance covered in `dt` microseconds at velocity `v` per second.
pub fn travel_i128(v: i64, dt: u64) -> (t: i128)
    requires
        -COORD_LIMIT <= v <= COORD_LIMIT,
    ensures
        t == travel(v as int, dt as int),
        abs(t as int) <= 20_000_000_000_000_000_000_000_000_000_000,
{
    assert(-20_000_000_000_000_000_000_000_000_000_000 <= v * dt
        <= 20_000_000_000_000_000_000_000_000_000_000) by (nonlinear_arith)
        requires
            -1_000_000_000_000 <= v <= 1_000_000_000_000,
            0 <= dt <= 0xffff_ffff_ffff_ffff,
    ;
    let prod: i128 = (v as i128) * (dt as i128);
    proof {
        lemma_div_trunc_bound(prod as int, MICROS_PER_SECOND as int);
    }
    div_trunc_i128(prod, MICROS_PER_SECOND)
}

/// Half of `a`, rounded down.
pub fn half_i64(a: i64) -> (h: i64)
    ensures
        h == half(a as int),
{
    if a >= 0 {
        a / 2
    } else {
        let m: i64 = -(a + 1);
        -(m / 2) - 1
    }
}

/// `p` brought into `[lo, hi]`, `lo` winning where `lo > hi`.
pub fn clamp_i128(p: i128, lo: i128, hi: i128) -> (r: i128)
    ensures
        r == clamp(p as int, lo as int, hi as int),
{
    let below = if p < hi {
        p
    } else {
        hi
    };
    if below > lo {
        below
    } else {
        lo
    }
}

} // verus!
