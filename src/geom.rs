//! Plane vectors in fixed point, and the operations that steering needs.
use vstd::prelude::*;
use crate::fixed::{SCALE, VEC_CAP, div_trunc, div_toward_zero, is_isqrt, isqrt, isqrt_spec};


verus! {

/// A point or a direction in the plane, in thousandths of a unit.
#[derive(Clone, Copy, Debug, PartialEq, Eq, Structural)]
pub struct Vec2 {
    pub x: i64,
    pub y: i64,
}

pub open spec fn abs(a: int) -> int {
    if a < 0 {
        -a
    } else {
        a
    }
}

/// Squared Euclidean distance between two points.
pub open spec fn dist2(a: Vec2, b: Vec2) -> int {
    (a.x - b.x) * (a.x - b.x) + (a.y - b.y) * (a.y - b.y)
}

/// Both components of `v` lie within `[-cap, cap]`.
pub open spec fn bounded(v: Vec2, cap: int) -> bool {
    abs(v.x as int) <= cap && abs(v.y as int) <= cap
}

/// Extra factor by which `normalize` refines a vector before measuring it,
/// so that short vectors keep their direction.
pub const REFINE: i64 = 1_000_000;

/// The direction of `(x, y)` scaled to length `SCALE`: both components are
/// refined by `REFINE`, divided by the integer length of the refined vector
/// and rounded toward zero. The zero vector stays zero.
pub open spec fn unit_spec(x: int, y: int) -> (int, int) {
    if x == 0 && y == 0 {
        (0, 0)
    } else {
        let sx = x * REFINE;
        let sy = y * REFINE;
        let len = isqrt_spec(sx * sx + sy * sy);
        (div_trunc(sx * SCALE, len), div_trunc(sy * SCALE, len))
    }
}

/// A unit-length heading is a vector whose components do not exceed `SCALE`.
pub open spec fn is_heading(v: Vec2) -> bool {
    bounded(v, SCALE as int)
}

proof fn lemma_component_le_len(x: int, n: int, len: int)
    requires
        x * x <= n,
        is_isqrt(n, len),
    ensures
        abs(x) <= len,
{
    let ax = abs(x);
    if x < 0 {
        assert((-x) * (-x) == x * x) by (nonlinear_arith);
    }
    if ax > len {
        assert((len + 1) * (len + 1) <= ax * ax) by (nonlinear_arith)
            requires
                0 <= len,
                len + 1 <= ax,
        ;
    }
}

proof fn lemma_scaled_quotient_bounded(ax: int, len: int)
    requires
        0 <= ax <= len,
        len > 0,
    ensures
        0 <= (ax * SCALE) / len <= SCALE,
{
    assert(ax * SCALE <= len * SCALE) by (nonlinear_arith)
        requires
            ax <= len,
    ;
    vstd::arithmetic::div_mod::lemma_div_is_ordered(ax * SCALE, len * SCALE, len);
    vstd::arithmetic::div_mod::lemma_div_multiples_vanish(SCALE as int, len);
    vstd::arithmetic::div_mod::lemma_div_pos_is_pos(ax * SCALE, len);
}

/// The direction of `(x, y)` at length `SCALE`.
pub fn normalize(x: i64, y: i64) -> (r: Vec2)
    requires
        abs(x as int) <= VEC_CAP,
        abs(y as int) <= VEC_CAP,
    ensures
        (r.x as int, r.y as int) == unit_spec(x as int, y as int),
        is_heading(r),
{
    if x == 0 && y == 0 {
        return Vec2 { x: 0, y: 0 };
    }
    let sx: i64 = x * REFINE;
    let sy: i64 = y * REFINE;
    let ax: u128 = if sx < 0 { (-sx) as u128 } else { sx as u128 };
    let ay: u128 = if sy < 0 { (-sy) as u128 } else { sy as u128 };
    let ghost cap: int = VEC_CAP * REFINE;
    assert(ax * ax <= cap * cap) by (nonlinear_arith)
        requires
            ax <= cap,
    ;
    assert(ay * ay <= cap * cap) by (nonlinear_arith)
        requires
            ay <= cap,
    ;
    proof {
        if sx < 0 {
            assert((-sx) * (-sx) == sx * sx) by (nonlinear_arith);
        }
        if sy < 0 {
            assert((-sy) * (-sy) == sy * sy) by (nonlinear_arith);
        }
    }
    let n: u128 = ax * ax + ay * ay;
    let len = isqrt(n);
    proof {
        assert(ax * ax >= 0 && ay * ay >= 0) by (nonlinear_arith);
        lemma_component_le_len(sx as int, n as int, len as int);
        lemma_component_le_len(sy as int, n as int, len as int);
        if len == 0 {
            assert(n < 1);
            assert(ax * ax > 0 || ay * ay > 0) by (nonlinear_arith)
                requires
                    ax > 0 || ay > 0,
            ;
        }
        lemma_scaled_quotient_bounded(ax as int, len as int);
        lemma_scaled_quotient_bounded(ay as int, len as int);
        assert(abs(sx as int) * SCALE == abs(sx * SCALE));
        assert(abs(sy as int) * SCALE == abs(sy * SCALE));
    }
    let len_i = len as i64;
    let rx = div_toward_zero(sx * SCALE, len_i);
    let ry = div_toward_zero(sy * SCALE, len_i);
    Vec2 { x: rx, y: ry }
}

} // verus!
