//! A single ball that bounces in a canvas and can be sent toward a point.
use vstd::prelude::*;
use crate::fixed::{
    abs, clamp, clamp_i128, div_trunc, div_trunc_i128, isqrt, lemma_isqrt_bounds, sqrt_floor,
    travel, travel_i128, EXTENT_LIMIT, SIZE_LIMIT,
};
use crate::sprite::in_coord_range;

verus! {

/// Speed a redirected ball leaves with: 200 units per second.
pub const REDIRECT_SPEED: i64 = 200_000;

pub struct Ball {
    pub x: i64,
    pub y: i64,
    pub velocity_x: i64,
    pub velocity_y: i64,
    pub radius: i64,
}

/// One axis of the ball's motion: move, reverse on touching or passing a
/// wall, and come back into `[r, extent - r]` (to `r` where that range is
/// empty). Returns the new position and velocity.
pub open spec fn ball_axis(p: int, v: int, dt: int, r: int, extent: int) -> (int, int) {
    let q = p + travel(v, dt);
    let v2 = if q + r >= extent || q - r <= 0 {
        -v
    } else {
        v
    };
    (clamp(q, r, extent - r), v2)
}

/// Velocity toward `(dx, dy)` away at `REDIRECT_SPEED`; none where the offset is zero.
pub open spec fn aimed(dx: int, dy: int) -> Option<(int, int)> {
    let d2 = dx * dx + dy * dy;
    if d2 > 0 {
        Some(
            (
                div_trunc(dx * REDIRECT_SPEED, isqrt(d2)),
                div_trunc(dy * REDIRECT_SPEED, isqrt(d2)),
            ),
        )
    } else {
        None
    }
}

impl Ball {
    pub open spec fn wf(&self) -> bool {
        &&& in_coord_range(self.x as int)
        &&& in_coord_range(self.y as int)
        &&& in_coord_range(self.velocity_x as int)
        &&& in_coord_range(self.velocity_y as int)
        &&& 0 <= self.radius <= SIZE_LIMIT
    }

    /// A ball at `(x, y)` moving at (150, 100) units per second, of radius 20 units.
    pub fn new(x: i64, y: i64) -> (b: Self)
        ensures
            b == (Ball { x, y, velocity_x: 150_000, velocity_y: 100_000, radius: 20_000 }),
    {
        Ball { x, y, velocity_x: 150_000, velocity_y: 100_000, radius: 20_000 }
    }

    /// Moves the ball for `dt` microseconds in a `canvas_width` by
    /// `canvas_height` canvas, reversing on each axis that met a wall.
    pub fn update(&mut self, dt: u64, canvas_width: i64, canvas_height: i64)
        requires
            old(self).wf(),
            0 <= canvas_width <= EXTENT_LIMIT,
            0 <= canvas_height <= EXTENT_LIMIT,
        ensures
            final(self).wf(),
            final(self).radius == old(self).radius,
            (final(self).x as int, final(self).velocity_x as int) == ball_axis(
                old(self).x as int,
                old(self).velocity_x as int,
                dt as int,
                old(self).radius as int,
                canvas_width as int,
            ),
            (final(self).y as int, final(self).velocity_y as int) == ball_axis(
                old(self).y as int,
                old(self).velocity_y as int,
                dt as int,
                old(self).radius as int,
                canvas_height as int,
            ),
    {
        let r = self.radius as i128;
        let qx: i128 = self.x as i128 + travel_i128(self.velocity_x, dt);
        let qy: i128 = self.y as i128 + travel_i128(self.velocity_y, dt);
        if qx + r >= canvas_width as i128 || qx - r <= 0 {
            self.velocity_x = -self.velocity_x;
        }
        if qy + r >= canvas_height as i128 || qy - r <= 0 {
            self.velocity_y = -self.velocity_y;
        }
        self.x = clamp_i128(qx, r, canvas_width as i128 - r) as i64;
        self.y = clamp_i128(qy, r, canvas_height as i128 - r) as i64;
    }

    /// Sends the ball toward `(target_x, target_y)` at `REDIRECT_SPEED`; a
    /// target at the ball's own position leaves it as it is.
    pub fn redirect_towards(&mut self, target_x: i64, target_y: i64)
        requires
            old(self).wf(),
            in_coord_range(target_x as int),
            in_coord_range(target_y as int),
        ensures
            final(self).wf(),
            final(self).x == old(self).x && final(self).y == old(self).y,
            final(self).radius == old(self).radius,
            match aimed(target_x - old(self).x, target_y - old(self).y) {
                Some((vx, vy)) => final(self).velocity_x == vx && final(self).velocity_y == vy,
                None => final(self).velocity_x == old(self).velocity_x && final(self).velocity_y
                    == old(self).velocity_y,
            },
    {
        let dx: i128 = target_x as i128 - self.x as i128;
        let dy: i128 = target_y as i128 - self.y as i128;
        assert(0 <= dx * dx <= 4_000_000_000_000_000_000_000_000 && 0 <= dy * dy
            <= 4_000_000_000_000_000_000_000_000) by (nonlinear_arith)
            requires
                -2_000_000_000_000 <= dx <= 2_000_000_000_000,
                -2_000_000_000_000 <= dy <= 2_000_000_000_000,
        ;
        let d2: i128 = dx * dx + dy * dy;
        if d2 > 0 {
            let d: i128 = sqrt_floor(d2 as u128) as i128;
            proof {
                lemma_isqrt_bounds(d2 as int);
                lemma_offset_within(dx as int, d2 as int, d as int);
                lemma_offset_within(dy as int, d2 as int, d as int);
            }
            let sx: i128 = dx * (REDIRECT_SPEED as i128);
            let sy: i128 = dy * (REDIRECT_SPEED as i128);
            proof {
                lemma_speed_share(dx as int, d as int);
                lemma_speed_share(dy as int, d as int);
            }
            self.velocity_x = div_trunc_i128(sx, d) as i64;
            self.velocity_y = div_trunc_i128(sy, d) as i64;
        }
    }
}

/// An offset is no longer than the floor of the distance it belongs to.
proof fn lemma_offset_within(dx: int, d2: int, d: int) by (nonlinear_arith)
    requires
        d >= 0,
        dx * dx <= d2,
        d2 < (d + 1) * (d + 1),
    ensures
        abs(dx) <= d,
        d >= 1 || dx == 0,
{
    if abs(dx) > d {
        assert(abs(dx) * abs(dx) >= (d + 1) * (d + 1));
    }
}

/// An offset's share of the redirect speed is at most that speed.
proof fn lemma_speed_share(dx: int, d: int)
    requires
        d >= 1,
        abs(dx) <= d,
    ensures
        abs(div_trunc(dx * REDIRECT_SPEED, d)) <= REDIRECT_SPEED,
{
    let a = abs(dx);
    assert(a * REDIRECT_SPEED <= d * REDIRECT_SPEED) by (nonlinear_arith)
        requires
            0 <= a <= d,
    ;
    assert(a * REDIRECT_SPEED >= 0) by (nonlinear_arith)
        requires
            a >= 0,
    ;
    vstd::arithmetic::div_mod::lemma_div_is_ordered(
        a * REDIRECT_SPEED,
        d * REDIRECT_SPEED,
        d,
    );
    vstd::arithmetic::mul::lemma_mul_is_commutative(d, REDIRECT_SPEED as int);
    vstd::arithmetic::div_mod::lemma_div_by_multiple(REDIRECT_SPEED as int, d);
    vstd::arithmetic::div_mod::lemma_div_pos_is_pos(a * REDIRECT_SPEED, d);
    if dx < 0 {
        assert(dx * REDIRECT_SPEED == -(a * REDIRECT_SPEED)) by (nonlinear_arith)
            requires
                a == -dx,
        ;
        assert(a * REDIRECT_SPEED > 0) by (nonlinear_arith)
            requires
                a > 0,
        ;
    } else {
        assert(dx * REDIRECT_SPEED == a * REDIRECT_SPEED);
    }
}

} // verus!
