//! Fixed-point arithmetic: every length, speed, energy and color channel is an
//! integer number of thousandths (`SCALE` stands for 1.0).
use vstd::prelude::*;

verus! {

/// The fixed-point unit: 1.0 is written `SCALE`.
pub const SCALE: i64 = 1000;

/// Bound on a vector component handed to `normalize`, so that squared
/// lengths fit in 64 bits.
pub const VEC_CAP: i64 = 1_000_000_000;

/// Bound on the magnitude of any agent's energy; energy saturates there.
pub const ENERGY_CAP: i64 = 1_000_000_000_000_000;

pub open spec fn clamp_spec(v: int, lo: int, hi: int) -> int {
    if v < lo {
        lo
    } else if v > hi {
        hi
    } else {
        v
    }
}

/// `v` limited to `[lo, hi]`.
pub fn clamp(v: i64, lo: i64, hi: i64) -> (r: i64)
    requires
        lo <= hi,
    ensures
        r == clamp_spec(v as int, lo as int, hi as int),
        lo <= r <= hi,
{
    if v < lo {
        lo
    } else if v > hi {
        hi
    } else {
        v
    }
}

/// Division rounding toward zero, as integer division does in Rust.
pub open spec fn div_trunc(a: int, b: int) -> int {
    if a >= 0 {
        a / b
    } else {
        -((-a) / b)
    }
}

/// `a / b` rounded toward zero, for a positive divisor.
pub fn div_toward_zero(a: i64, b: i64) -> (r: i64)
    requires
        b > 0,
        a > i64::MIN,
    ensures
        r == div_trunc(a as int, b as int),
{
    if a >= 0 {
        a / b
    } else {
        let q = (-a) / b;
        -q
    }
}

/// `r` is the integer square root of `n`.
pub open spec fn is_isqrt(n: int, r: int) -> bool {
    0 <= r && r * r <= n && n < (r + 1) * (r + 1)
}

/// The integer square root of a non-negative `n`.
pub open spec fn isqrt_spec(n: int) -> int {
    choose|r: int| is_isqrt(n, r)
}

proof fn lemma_isqrt_unique(n: int, a: int, b: int)
    requires
        is_isqrt(n, a),
        is_isqrt(n, b),
    ensures
        a == b,
{
    if a < b {
        assert((a + 1) * (a + 1) <= b * b) by (nonlinear_arith)
            requires
                0 <= a,
                a + 1 <= b,
        ;
    } else if b < a {
        assert((b + 1) * (b + 1) <= a * a) by (nonlinear_arith)
            requires
                0 <= b,
                b + 1 <= a,
        ;
    }
}

/// Bound of every square root: `ISQRT_HI * ISQRT_HI` exceeds every argument.
/// Largest argument of `isqrt`.
pub const ISQRT_MAX: u128 = 2_000_000_000_000_000_000_000_000_000_000;

pub const ISQRT_HI: u128 = 1_500_000_000_000_000;

/// The integer square root, found by bisection.
pub fn isqrt(n: u128) -> (r: u128)
    requires
        n <= ISQRT_MAX,
    ensures
        is_isqrt(n as int, r as int),
        r as int == isqrt_spec(n as int),
        r < ISQRT_HI,
{
    let mut lo: u128 = 0;
    let mut hi: u128 = ISQRT_HI;
    assert(n < (ISQRT_HI as int) * (ISQRT_HI as int)) by (nonlinear_arith)
        requires
            n <= ISQRT_MAX,
    ;
    while lo + 1 < hi
        invariant
            lo < hi <= ISQRT_HI,
            lo * lo <= n,
            n < hi * hi,
        decreases hi - lo,
    {
        let mid = lo + (hi - lo) / 2;
        assert(mid * mid <= (ISQRT_HI as int) * (ISQRT_HI as int)) by (nonlinear_arith)
            requires
                mid <= ISQRT_HI,
        ;
        if mid * mid <= n {
            lo = mid;
        } else {
            hi = mid;
        }
    }
    proof {
        lemma_isqrt_unique(n as int, lo as int, isqrt_spec(n as int));
    }
    lo
}

} // verus!
