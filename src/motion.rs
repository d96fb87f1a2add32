//! Movement shared by prey and predators: advancing with a wall bounce,
//! turning by a small angle, blending in a steering direction, and finding the
//! nearest visible point.
use vstd::prelude::*;
use crate::fixed::{SCALE, clamp, clamp_spec, div_trunc, div_toward_zero};
use crate::geom::{Vec2, abs, dist2, is_heading, normalize, unit_spec};

verus! {

/// Largest world extent along either axis.
pub const WORLD_CAP: i64 = 1_000_000_000;
/// Largest global speed multiplier (100.0).
pub const MULT_CAP: i64 = 100_000;
/// Largest speed of any agent (100.0).
pub const SPEED_CAP: i64 = 100_000;
/// Largest heading jitter in milliradians.
pub const MAX_JITTER: i64 = 200;

/// The point lies inside the world rectangle `[0, w] x [0, h]`.
pub open spec fn in_world(p: Vec2, w: int, h: int) -> bool {
    0 <= p.x <= w && 0 <= p.y <= h
}

/// The world rectangle is one that the simulation can hold.
pub open spec fn world_ok(w: int, h: int) -> bool {
    0 <= w <= WORLD_CAP && 0 <= h <= WORLD_CAP
}

/// One axis of a move: the new coordinate and velocity component. A
/// coordinate that leaves `[0, max]` is clamped back and its velocity
/// component reversed.
pub open spec fn moved_axis(p: int, v: int, speed: int, mult: int, max: int) -> (int, int) {
    let np = p + div_trunc(v * speed * mult, SCALE * SCALE);
    if np < 0 || np > max {
        (clamp_spec(np, 0, max), -v)
    } else {
        (np, v)
    }
}

/// Position and velocity after one move of `vel * speed * mult`.
pub open spec fn advanced(pos: Vec2, vel: Vec2, speed: int, mult: int, w: int, h: int) -> (Vec2, Vec2) {
    let ax = moved_axis(pos.x as int, vel.x as int, speed, mult, w);
    let ay = moved_axis(pos.y as int, vel.y as int, speed, mult, h);
    (Vec2 { x: ax.0 as i64, y: ay.0 as i64 }, Vec2 { x: ax.1 as i64, y: ay.1 as i64 })
}

/// The vector with components `c`, as a `Vec2`.
pub open spec fn vec_of(c: (int, int)) -> Vec2 {
    Vec2 { x: c.0 as i64, y: c.1 as i64 }
}

/// `cos(theta)` to second order, `theta` in milliradians.
pub open spec fn cos_approx(theta: int) -> int {
    SCALE - (theta * theta) / (2 * SCALE)
}

/// `sin(theta)` to third order, `theta` in milliradians.
pub open spec fn sin_approx(theta: int) -> int {
    theta - div_trunc(theta * theta * theta, 6 * SCALE * SCALE)
}

/// The heading `v` turned by `theta` milliradians.
pub open spec fn rotated(v: Vec2, theta: int) -> Vec2 {
    let c = cos_approx(theta);
    let s = sin_approx(theta);
    vec_of(unit_spec(v.x * c - v.y * s, v.x * s + v.y * c))
}

/// The heading `v` with `dir` blended in at `weight` per mille, renormalized.
pub open spec fn blended(v: Vec2, dir: Vec2, weight: int) -> Vec2 {
    vec_of(unit_spec(v.x + div_trunc(dir.x * weight, SCALE as int), v.y + div_trunc(dir.y * weight, SCALE as int)))
}

/// The unit direction from `from` to `to`.
pub open spec fn toward(from: Vec2, to: Vec2) -> Vec2 {
    vec_of(unit_spec(to.x - from.x, to.y - from.y))
}

/// The first index whose point is strictly nearest to `pos` among those at a
/// squared distance below `r2`, scanning `pts` in order.
pub open spec fn nearest_scan(pos: Vec2, pts: Seq<Vec2>, r2: int) -> Option<int>
    decreases pts.len(),
{
    if pts.len() == 0 {
        None
    } else {
        let prev = nearest_scan(pos, pts.drop_last(), r2);
        let i = pts.len() - 1;
        let d = dist2(pos, pts[i]);
        if d < r2 && (prev is None || d < dist2(pos, pts[prev->Some_0])) {
            Some(i)
        } else {
            prev
        }
    }
}

/// What the scan chooses: a point within range that no point in range is
/// nearer than, and that every earlier point in range is farther than; no
/// choice only when no point is in range.
pub open spec fn nearest_choice(pos: Vec2, pts: Seq<Vec2>, r2: int, r: Option<int>) -> bool {
    match r {
        Some(i) => {
            &&& 0 <= i < pts.len()
            &&& dist2(pos, pts[i]) < r2
            &&& forall|j: int| 0 <= j < pts.len() && dist2(pos, #[trigger] pts[j]) < r2 ==> dist2(pos, pts[i]) <= dist2(pos, pts[j])
            &&& forall|j: int| 0 <= j < i && dist2(pos, #[trigger] pts[j]) < r2 ==> dist2(pos, pts[i]) < dist2(pos, pts[j])
        },
        None => forall|j: int| 0 <= j < pts.len() ==> dist2(pos, #[trigger] pts[j]) >= r2,
    }
}

proof fn lemma_nearest_scan_choice(pos: Vec2, pts: Seq<Vec2>, r2: int)
    ensures
        nearest_choice(pos, pts, r2, nearest_scan(pos, pts, r2)),
    decreases pts.len(),
{
    if pts.len() > 0 {
        let rest = pts.drop_last();
        let n = pts.len() - 1;
        lemma_nearest_scan_choice(pos, rest, r2);
        assert forall|j: int| 0 <= j < rest.len() implies #[trigger] rest[j] == pts[j] by {}
        let prev = nearest_scan(pos, rest, r2);
        let dn = dist2(pos, pts[n]);
        match nearest_scan(pos, pts, r2) {
            Some(i) => {
                if i == n {
                    assert forall|j: int| 0 <= j < pts.len() && dist2(pos, #[trigger] pts[j]) < r2 implies dn <= dist2(pos, pts[j]) by {
                        if j < n {
                            assert(rest[j] == pts[j]);
                        }
                    }
                    assert forall|j: int| 0 <= j < i && dist2(pos, #[trigger] pts[j]) < r2 implies dn < dist2(pos, pts[j]) by {
                        assert(rest[j] == pts[j]);
                    }
                } else {
                    assert(prev == Some(i));
                    assert(rest[i] == pts[i]);
                    assert forall|j: int| 0 <= j < pts.len() && dist2(pos, #[trigger] pts[j]) < r2 implies dist2(pos, pts[i]) <= dist2(pos, pts[j]) by {
                        if j < n {
                            assert(rest[j] == pts[j]);
                        }
                    }
                    assert forall|j: int| 0 <= j < i && dist2(pos, #[trigger] pts[j]) < r2 implies dist2(pos, pts[i]) < dist2(pos, pts[j]) by {
                        assert(rest[j] == pts[j]);
                    }
                }
            },
            None => {
                assert forall|j: int| 0 <= j < pts.len() implies dist2(pos, #[trigger] pts[j]) >= r2 by {
                    if j < n {
                        assert(rest[j] == pts[j]);
                    }
                }
            },
        }
    }
}

/// Squared distance between two points of the world.
pub fn distance2(a: Vec2, b: Vec2) -> (r: i64)
    requires
        0 <= a.x <= WORLD_CAP,
        0 <= a.y <= WORLD_CAP,
        0 <= b.x <= WORLD_CAP,
        0 <= b.y <= WORLD_CAP,
    ensures
        r == dist2(a, b),
        r >= 0,
{
    proof {
        let dx = a.x - b.x;
        let dy = a.y - b.y;
        assert(0 <= dx * dx <= (WORLD_CAP as int) * (WORLD_CAP as int)) by (nonlinear_arith)
            requires
                -WORLD_CAP <= dx <= WORLD_CAP,
        ;
        assert(0 <= dy * dy <= (WORLD_CAP as int) * (WORLD_CAP as int)) by (nonlinear_arith)
            requires
                -WORLD_CAP <= dy <= WORLD_CAP,
        ;
    }
    let dx = a.x - b.x;
    let dy = a.y - b.y;
    dx * dx + dy * dy
}

/// Index of the first strictly nearest point of `pts` that lies at a squared
/// distance below `r2` from `pos`, or `None` when no point is that close.
pub fn nearest_within(pos: Vec2, pts: &Vec<Vec2>, r2: i64) -> (r: Option<usize>)
    requires
        in_world(pos, WORLD_CAP as int, WORLD_CAP as int),
        forall|j: int| 0 <= j < pts@.len() ==> #[trigger] in_world(pts@[j], WORLD_CAP as int, WORLD_CAP as int),
    ensures
        r matches Some(i) ==> nearest_scan(pos, pts@, r2 as int) == Some(i as int) && i < pts@.len(),
        r is None ==> nearest_scan(pos, pts@, r2 as int) is None,
        nearest_choice(pos, pts@, r2 as int, match r {
            Some(i) => Some(i as int),
            None => None,
        }),
{
    let mut best: Option<usize> = None;
    let mut best_d: i64 = 0;
    let mut i: usize = 0;
    while i < pts.len()
        invariant
            i <= pts@.len(),
            in_world(pos, WORLD_CAP as int, WORLD_CAP as int),
            forall|j: int| 0 <= j < pts@.len() ==> #[trigger] in_world(pts@[j], WORLD_CAP as int, WORLD_CAP as int),
            best matches Some(b) ==> nearest_scan(pos, pts@.take(i as int), r2 as int) == Some(b as int) && b < i
                && best_d == dist2(pos, pts@[b as int]),
            best is None ==> nearest_scan(pos, pts@.take(i as int), r2 as int) is None,
        decreases pts@.len() - i,
    {
        assert(pts@.take(i + 1).drop_last() =~= pts@.take(i as int));
        assert(in_world(pts@[i as int], WORLD_CAP as int, WORLD_CAP as int));
        let d = distance2(pos, pts[i]);
        let closer = match best {
            None => true,
            Some(_) => d < best_d,
        };
        if d < r2 && closer {
            best = Some(i);
            best_d = d;
        }
        i = i + 1;
    }
    assert(pts@.take(pts@.len() as int) =~= pts@);
    proof {
        lemma_nearest_scan_choice(pos, pts@, r2 as int);
    }
    best
}

/// One move of `vel * speed * mult` inside `[0, w] x [0, h]`, bouncing off
/// the walls.
pub fn advance(pos: Vec2, vel: Vec2, speed: i64, mult: i64, w: i64, h: i64) -> (r: (Vec2, Vec2))
    requires
        world_ok(w as int, h as int),
        in_world(pos, w as int, h as int),
        is_heading(vel),
        0 <= speed <= SPEED_CAP,
        0 <= mult <= MULT_CAP,
    ensures
        r == advanced(pos, vel, speed as int, mult as int, w as int, h as int),
        in_world(r.0, w as int, h as int),
        is_heading(r.1),
{
    let ax = advance_axis(pos.x, vel.x, speed, mult, w);
    let ay = advance_axis(pos.y, vel.y, speed, mult, h);
    (Vec2 { x: ax.0, y: ay.0 }, Vec2 { x: ax.1, y: ay.1 })
}

fn advance_axis(p: i64, v: i64, speed: i64, mult: i64, max: i64) -> (r: (i64, i64))
    requires
        0 <= max <= WORLD_CAP,
        0 <= p <= max,
        -SCALE <= v <= SCALE,
        0 <= speed <= SPEED_CAP,
        0 <= mult <= MULT_CAP,
    ensures
        (r.0 as int, r.1 as int) == moved_axis(p as int, v as int, speed as int, mult as int, max as int),
        0 <= r.0 <= max,
        -SCALE <= r.1 <= SCALE,
{
    assert(-(SCALE * SPEED_CAP * MULT_CAP) <= v * speed * mult <= SCALE * SPEED_CAP * MULT_CAP) by (nonlinear_arith)
        requires
            -SCALE <= v <= SCALE,
            0 <= speed <= SPEED_CAP,
            0 <= mult <= MULT_CAP,
    ;
    assert(abs(v * speed) <= SCALE * SPEED_CAP) by (nonlinear_arith)
        requires
            -SCALE <= v <= SCALE,
            0 <= speed <= SPEED_CAP,
    ;
    let step = div_toward_zero(v * speed * mult, SCALE * SCALE);
    assert(abs(step as int) <= 10_000_000) by {
        assert(abs(v * speed * mult) <= SCALE * SPEED_CAP * MULT_CAP) by (nonlinear_arith)
            requires
                -SCALE <= v <= SCALE,
                0 <= speed <= SPEED_CAP,
                0 <= mult <= MULT_CAP,
        ;
        vstd::arithmetic::div_mod::lemma_div_is_ordered(
            abs(v * speed * mult),
            SCALE * SPEED_CAP * MULT_CAP,
            SCALE * SCALE,
        );
    }
    let np = p + step;
    if np < 0 || np > max {
        (clamp(np, 0, max), -v)
    } else {
        (np, v)
    }
}

/// The heading `v` turned by `theta` milliradians and renormalized.
pub fn rotate(v: Vec2, theta: i64) -> (r: Vec2)
    requires
        is_heading(v),
        -MAX_JITTER <= theta <= MAX_JITTER,
    ensures
        r == rotated(v, theta as int),
        is_heading(r),
{
    assert(0 <= theta * theta <= MAX_JITTER * MAX_JITTER) by (nonlinear_arith)
        requires
            -MAX_JITTER <= theta <= MAX_JITTER,
    ;
    assert(abs(theta * theta * theta) <= MAX_JITTER * MAX_JITTER * MAX_JITTER) by (nonlinear_arith)
        requires
            -MAX_JITTER <= theta <= MAX_JITTER,
    ;
    let c = SCALE - (theta * theta) / (2 * SCALE);
    let s = theta - div_toward_zero(theta * theta * theta, 6 * SCALE * SCALE);
    assert(0 <= c <= SCALE);
    assert(abs(s as int) <= 2 * MAX_JITTER) by {
        let t3 = theta * theta * theta;
        vstd::arithmetic::div_mod::lemma_div_is_ordered(
            abs(t3),
            MAX_JITTER * MAX_JITTER * MAX_JITTER,
            6 * SCALE * SCALE,
        );
        assert(8_000_000int / 6_000_000int == 1);
        vstd::arithmetic::div_mod::lemma_div_pos_is_pos(abs(t3), 6 * SCALE * SCALE);
    }
    assert(abs(v.x * c) <= SCALE * SCALE && abs(v.y * s) <= SCALE * SCALE && abs(v.x * s) <= SCALE * SCALE
        && abs(v.y * c) <= SCALE * SCALE) by (nonlinear_arith)
        requires
            -SCALE <= v.x <= SCALE,
            -SCALE <= v.y <= SCALE,
            0 <= c <= SCALE,
            -2 * MAX_JITTER <= s <= 2 * MAX_JITTER,
    ;
    let r = normalize(v.x * c - v.y * s, v.x * s + v.y * c);
    r
}

/// The heading `v` with the heading `dir` blended in at `weight` per mille.
pub fn blend(v: Vec2, dir: Vec2, weight: i64) -> (r: Vec2)
    requires
        is_heading(v),
        is_heading(dir),
        0 <= weight <= SCALE,
    ensures
        r == blended(v, dir, weight as int),
        is_heading(r),
{
    assert(abs(dir.x * weight) <= SCALE * SCALE && abs(dir.y * weight) <= SCALE * SCALE) by (nonlinear_arith)
        requires
            -SCALE <= dir.x <= SCALE,
            -SCALE <= dir.y <= SCALE,
            0 <= weight <= SCALE,
    ;
    let bx = div_toward_zero(dir.x * weight, SCALE);
    let by = div_toward_zero(dir.y * weight, SCALE);
    assert(abs(bx as int) <= SCALE) by {
        vstd::arithmetic::div_mod::lemma_div_is_ordered(abs(dir.x * weight), SCALE * SCALE, SCALE as int);
        vstd::arithmetic::div_mod::lemma_div_multiples_vanish(SCALE as int, SCALE as int);
    }
    assert(abs(by as int) <= SCALE) by {
        vstd::arithmetic::div_mod::lemma_div_is_ordered(abs(dir.y * weight), SCALE * SCALE, SCALE as int);
        vstd::arithmetic::div_mod::lemma_div_multiples_vanish(SCALE as int, SCALE as int);
    }
    normalize(v.x + bx, v.y + by)
}

/// The unit direction from `from` to `to`, two points of the world.
pub fn direction(from: Vec2, to: Vec2) -> (r: Vec2)
    requires
        in_world(from, WORLD_CAP as int, WORLD_CAP as int),
        in_world(to, WORLD_CAP as int, WORLD_CAP as int),
    ensures
        r == toward(from, to),
        is_heading(r),
{
    normalize(to.x - from.x, to.y - from.y)
}

} // verus!
