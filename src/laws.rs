//! Laws of the motion model, proved over the spec functions that `update`
//! and `advance` are held to.
use vstd::prelude::*;
use crate::fixed::{
    abs, clamp, div_trunc, half, isqrt, lemma_isqrt_bounds, lemma_scaled_fraction, travel,
};
use crate::sprite::{
    advanced, dist_sq, seek_step, spawn_coord, target_inside, Body, Bounds, ROLL_SCALE, TOLERANCE,
};

verus! {

/// Whether one axis of free motion meets a wall during the step.
pub open spec fn bounces(p: int, v: int, dt: int, lo: int, hi: int) -> bool {
    p + travel(v, dt) <= lo || p + travel(v, dt) >= hi
}

proof fn lemma_half_fits(size: int, extent: int)
    requires
        extent >= size,
    ensures
        half(size) <= extent - half(size),
        2 * half(size) <= size,
{
}

/// After any step, in any mode, a sprite lies in the clamp rectangle
/// `[size/2, width - size/2] x [size/2, height - size/2]` of an arena that is
/// at least as large as the sprite.
pub proof fn lemma_containment(s: Body, dt: nat, b: Bounds, rx: u32, ry: u32)
    requires
        s.wf(),
        b.wf(),
        b.holds(s.size),
    ensures
        advanced(s, dt as int, b, rx as int, ry as int).inside(b),
{
    lemma_half_fits(s.size, b.width as int);
    lemma_half_fits(s.size, b.height as int);
}

/// A free sprite that meets a wall leaves with the opposite velocity on that
/// axis, and its speed on each axis, hence its kinetic energy, is unchanged.
pub proof fn lemma_bounce_keeps_speed(s: Body, dt: nat, b: Bounds, rx: u32, ry: u32)
    requires
        s.is_free(),
    ensures
        ({
            let r = advanced(s, dt as int, b, rx as int, ry as int);
            let lo = half(s.size);
            &&& bounces(s.x, s.vx, dt as int, lo, b.width - lo) ==> r.vx == -s.vx
            &&& !bounces(s.x, s.vx, dt as int, lo, b.width - lo) ==> r.vx == s.vx
            &&& bounces(s.y, s.vy, dt as int, lo, b.height - lo) ==> r.vy == -s.vy
            &&& !bounces(s.y, s.vy, dt as int, lo, b.height - lo) ==> r.vy == s.vy
            &&& abs(r.vx) == abs(s.vx) && abs(r.vy) == abs(s.vy)
            &&& r.vx * r.vx + r.vy * r.vy == s.vx * s.vx + s.vy * s.vy
        }),
{
    let r = advanced(s, dt as int, b, rx as int, ry as int);
    assert((-s.vx) * (-s.vx) == s.vx * s.vx) by (nonlinear_arith);
    assert((-s.vy) * (-s.vy) == s.vy * s.vy) by (nonlinear_arith);
}

/// A step of zero length moves nothing, changes no velocity and turns
/// nothing. A free sprite must lie strictly inside the clamp rectangle (on a
/// wall it would reverse); a sprite in another mode anywhere in it.
pub proof fn lemma_zero_step(s: Body, b: Bounds, rx: u32, ry: u32)
    requires
        s.wf(),
        s.inside(b),
        s.is_free() ==> half(s.size) < s.x < b.width - half(s.size) && half(s.size) < s.y
            < b.height - half(s.size),
    ensures
        ({
            let r = advanced(s, 0, b, rx as int, ry as int);
            r.x == s.x && r.y == s.y && r.vx == s.vx && r.vy == s.vy && r.rotation == s.rotation
        }),
{
    assert(travel(s.vx, 0) == 0);
    assert(travel(s.vy, 0) == 0);
    if let Some(t) = s.target {
        assert(seek_step(0) == 0);
        assert((t.x - s.x) * 0 == 0 && (t.y - s.y) * 0 == 0) by (nonlinear_arith);
        let d2 = dist_sq(s.x, s.y, t);
        if d2 > TOLERANCE * TOLERANCE {
            lemma_isqrt_bounds(d2);
            assert(isqrt(d2) >= 1) by (nonlinear_arith)
                requires
                    isqrt(d2) >= 0,
                    d2 > 1,
                    d2 < (isqrt(d2) + 1) * (isqrt(d2) + 1),
            ;
        }
    }
}

/// A sprite that reaches a target which asks for a successor is given a new
/// target, itself asking for a successor, that lies in the clamp rectangle.
pub proof fn lemma_respawn(s: Body, dt: nat, b: Bounds, rx: u32, ry: u32)
    requires
        s.wf(),
        b.wf(),
        b.holds(s.size),
        s.target matches Some(t) && t.find_new_target && dist_sq(s.x, s.y, t) <= TOLERANCE
            * TOLERANCE,
    ensures
        ({
            let r = advanced(s, dt as int, b, rx as int, ry as int);
            r.target matches Some(n) && n.find_new_target && target_inside(n, s.size, b)
        }),
{
    lemma_spawn_range(half(s.size), b.width - s.size, rx as int);
    lemma_spawn_range(half(s.size), b.height - s.size, ry as int);
    lemma_half_fits(s.size, b.width as int);
    lemma_half_fits(s.size, b.height as int);
}

proof fn lemma_spawn_range(lo: int, span: int, roll: int)
    requires
        0 <= roll < ROLL_SCALE,
        -1_000_000_000_000 <= lo <= 1_000_000_000_000,
        -1_000_000_000_000 <= span <= 1_000_000_000_000,
    ensures
        lo <= spawn_coord(lo, span, roll),
        span >= 0 ==> spawn_coord(lo, span, roll) <= lo + span,
{
    if span > 0 {
        lemma_scaled_fraction(roll, span, ROLL_SCALE as int);
    }
}

/// `a * s / d` lies in `[0, a]` when `0 <= s <= d`, and is at least one when
/// `a * s >= d`.
proof fn lemma_toward_nonneg(a: int, s: int, d: int)
    requires
        a >= 0,
        0 <= s <= d,
        d >= 1,
    ensures
        0 <= (a * s) / d <= a,
        a * s >= d ==> (a * s) / d >= 1,
{
    vstd::arithmetic::mul::lemma_mul_inequality(s, d, a);
    vstd::arithmetic::mul::lemma_mul_is_commutative(s, a);
    vstd::arithmetic::mul::lemma_mul_is_commutative(d, a);
    assert(a * s >= 0) by (nonlinear_arith)
        requires
            a >= 0,
            s >= 0,
    ;
    vstd::arithmetic::div_mod::lemma_div_pos_is_pos(a * s, d);
    vstd::arithmetic::div_mod::lemma_div_is_ordered(a * s, a * d, d);
    vstd::arithmetic::div_mod::lemma_div_by_multiple(a, d);
    if a * s >= d {
        vstd::arithmetic::div_mod::lemma_div_is_ordered(d, a * s, d);
        vstd::arithmetic::div_mod::lemma_div_by_self(d);
    }
}

/// The move of a seeking sprite along one axis: it has the sign of the
/// offset `dx` to the target, does not pass it, and is nonzero once
/// `|dx| * step` reaches the distance.
proof fn lemma_toward(dx: int, step: int, d: int)
    requires
        0 <= step <= d,
        d >= 1,
    ensures
        ({
            let m = div_trunc(dx * step, d);
            &&& abs(m) <= abs(dx)
            &&& dx >= 0 ==> m >= 0
            &&& dx <= 0 ==> m <= 0
            &&& abs(dx) * step >= d ==> abs(m) >= 1
        }),
{
    if dx >= 0 {
        assert(dx * step >= 0) by (nonlinear_arith)
            requires
                dx >= 0,
                step >= 0,
        ;
        lemma_toward_nonneg(dx, step, d);
    } else {
        assert(dx * step == -((-dx) * step)) by (nonlinear_arith);
        lemma_toward_nonneg(-dx, step, d);
    }
}

/// Clamping into a range that holds `t` brings a point no farther from `t`.
proof fn lemma_clamp_closer(q: int, t: int, lo: int, hi: int)
    requires
        lo <= t <= hi,
    ensures
        abs(t - clamp(q, lo, hi)) <= abs(t - q),
{
}

proof fn lemma_square_le(a: int, b: int) by (nonlinear_arith)
    requires
        0 <= a <= b,
    ensures
        a * a <= b * b,
        a < b ==> a * a < b * b,
{
}

proof fn lemma_abs_square(a: int) by (nonlinear_arith)
    ensures
        abs(a) * abs(a) == a * a,
{
}

/// Either offset is at least half the distance `d`, so a step of at least
/// two moves at least one axis.
proof fn lemma_some_axis_moves(dx: int, dy: int, step: int, d: int) by (nonlinear_arith)
    requires
        step >= 2,
        d >= 1,
        d * d <= dx * dx + dy * dy,
    ensures
        abs(dx) * step >= d || abs(dy) * step >= d,
{
    if abs(dx) * step < d && abs(dy) * step < d {
        assert(2 * abs(dx) < d && 2 * abs(dy) < d);
        assert(4 * (abs(dx) * abs(dx)) < d * d);
        assert(4 * (abs(dy) * abs(dy)) < d * d);
        assert(abs(dx) * abs(dx) == dx * dx);
        assert(abs(dy) * abs(dy) == dy * dy);
    }
}

/// While a seeking sprite is farther than the tolerance from a target in the
/// clamp rectangle, a step whose length is between two quanta and the
/// tolerance keeps the target and brings the sprite strictly closer to it.
pub proof fn lemma_seek_approaches(s: Body, dt: nat, b: Bounds, rx: u32, ry: u32)
    requires
        s.wf(),
        b.wf(),
        b.holds(s.size),
        s.target matches Some(t) && target_inside(t, s.size, b) && dist_sq(s.x, s.y, t)
            > TOLERANCE * TOLERANCE,
        2 <= seek_step(dt as int) <= TOLERANCE,
    ensures
        ({
            let r = advanced(s, dt as int, b, rx as int, ry as int);
            let t = s.target.unwrap();
            r.target == s.target && dist_sq(r.x, r.y, t) < dist_sq(s.x, s.y, t)
        }),
{
    let t = s.target.unwrap();
    let r = advanced(s, dt as int, b, rx as int, ry as int);
    let lo = half(s.size);
    let dx = t.x - s.x;
    let dy = t.y - s.y;
    let d2 = dist_sq(s.x, s.y, t);
    let d = isqrt(d2);
    let step = seek_step(dt as int);
    lemma_isqrt_bounds(d2);
    assert(d >= TOLERANCE) by (nonlinear_arith)
        requires
            d >= 0,
            d2 > 25_000_000,
            d2 < (d + 1) * (d + 1),
    ;
    lemma_toward(dx, step, d);
    lemma_toward(dy, step, d);
    lemma_some_axis_moves(dx, dy, step, d);
    let mx = div_trunc(dx * step, d);
    let my = div_trunc(dy * step, d);
    lemma_clamp_closer(s.x + mx, t.x as int, lo, b.width - lo);
    lemma_clamp_closer(s.y + my, t.y as int, lo, b.height - lo);
    let ex = t.x - r.x;
    let ey = t.y - r.y;
    assert(abs(ex) <= abs(dx) - abs(mx));
    assert(abs(ey) <= abs(dy) - abs(my));
    lemma_square_le(abs(ex), abs(dx));
    lemma_square_le(abs(ey), abs(dy));
    lemma_abs_square(ex);
    lemma_abs_square(ey);
    lemma_abs_square(dx);
    lemma_abs_square(dy);
}

/// A sprite within tolerance of a target that asks for no successor drops
/// the target and comes to rest where it is.
pub proof fn lemma_arrival(s: Body, dt: nat, b: Bounds, rx: u32, ry: u32)
    requires
        s.inside(b),
        s.target matches Some(t) && !t.find_new_target && dist_sq(s.x, s.y, t) <= TOLERANCE
            * TOLERANCE,
    ensures
        ({
            let r = advanced(s, dt as int, b, rx as int, ry as int);
            r.target is None && r.stationary && r.x == s.x && r.y == s.y
        }),
{
}

/// A sprite at rest in the clamp rectangle stays at rest and does not move.
pub proof fn lemma_rest(s: Body, dt: nat, b: Bounds, rx: u32, ry: u32)
    requires
        s.inside(b),
        s.target is None,
        s.stationary,
    ensures
        ({
            let r = advanced(s, dt as int, b, rx as int, ry as int);
            r.target is None && r.stationary && r.x == s.x && r.y == s.y
        }),
{
}

/// `n` steps of `dt` microseconds each in arena `b`, drawing with rolls of zero.
pub open spec fn advanced_times(s: Body, dt: int, b: Bounds, n: nat) -> Body
    decreases n,
{
    if n == 0 {
        s
    } else {
        advanced_times(advanced(s, dt, b, 0, 0), dt, b, (n - 1) as nat)
    }
}

/// A step keeps a sprite in the ranges that the arithmetic handles.
proof fn lemma_step_wf(s: Body, dt: nat, b: Bounds, rx: u32, ry: u32)
    requires
        s.wf(),
        b.wf(),
        b.holds(s.size),
    ensures
        advanced(s, dt as int, b, rx as int, ry as int).wf(),
{
    lemma_containment(s, dt, b, rx, ry);
    lemma_bounce_keeps_speed_if_free(s, dt, b, rx, ry);
    if let Some(t) = s.target {
        if t.find_new_target && dist_sq(s.x, s.y, t) <= TOLERANCE * TOLERANCE {
            lemma_respawn(s, dt, b, rx, ry);
        }
    }
}

proof fn lemma_bounce_keeps_speed_if_free(s: Body, dt: nat, b: Bounds, rx: u32, ry: u32)
    ensures
        s.is_free() ==> ({
            let r = advanced(s, dt as int, b, rx as int, ry as int);
            abs(r.vx) == abs(s.vx) && abs(r.vy) == abs(s.vy)
        }),
{
    if s.is_free() {
        lemma_bounce_keeps_speed(s, dt, b, rx, ry);
    }
}

/// Repeated steps that are short enough bring a sprite seeking a target in
/// the clamp rectangle that asks for no successor to that target: after
/// finitely many steps the target is dropped and the sprite is at rest.
pub proof fn lemma_seek_converges(s: Body, dt: nat, b: Bounds)
    requires
        s.wf(),
        b.wf(),
        b.holds(s.size),
        s.inside(b),
        s.target matches Some(t) && !t.find_new_target && target_inside(t, s.size, b),
        2 <= seek_step(dt as int) <= TOLERANCE,
    ensures
        exists|n: nat|
            {
                let r = #[trigger] advanced_times(s, dt as int, b, n);
                r.target is None && r.stationary
            },
    decreases dist_sq(s.x, s.y, s.target.unwrap()),
{
    let t = s.target.unwrap();
    let next = advanced(s, dt as int, b, 0, 0);
    assert(advanced_times(s, dt as int, b, 1) == advanced_times(next, dt as int, b, 0));
    if dist_sq(s.x, s.y, t) <= TOLERANCE * TOLERANCE {
        lemma_arrival(s, dt, b, 0, 0);
        assert(advanced_times(s, dt as int, b, 1).target is None);
    } else {
        lemma_seek_approaches(s, dt, b, 0, 0);
        lemma_step_wf(s, dt, b, 0, 0);
        lemma_containment(s, dt, b, 0, 0);
        assert(next.target.unwrap() == t);
        let (nx, ny) = (next.x, next.y);
        assert((t.x - nx) * (t.x - nx) + (t.y - ny) * (t.y - ny) >= 0) by (nonlinear_arith);
        lemma_seek_converges(next, dt, b);
        let n = choose|n: nat|
            {
                let r = #[trigger] advanced_times(next, dt as int, b, n);
                r.target is None && r.stationary
            };
        assert(advanced_times(s, dt as int, b, n + 1) == advanced_times(next, dt as int, b, n));
    }
}

} // verus!
