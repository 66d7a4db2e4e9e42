//! Sprites: the motion model of one shape in a rectangular arena.
//!
//! A sprite without a target bounces off the arena's walls at its own
//! velocity; a sprite with a target moves toward it at a fixed speed and, on
//! reaching it, either draws a fresh target or comes to rest.
use vstd::prelude::*;
use crate::fixed::{
    clamp, clamp_i128, div_trunc, div_trunc_i128, half, half_i64, isqrt, lemma_div_trunc_bound,
    lemma_isqrt_bounds, lemma_scaled_fraction, sqrt_floor, travel, travel_i128, COORD_LIMIT,
    EXTENT_LIMIT, MICROS_PER_SECOND, SIZE_LIMIT,
};

verus! {

/// Turning rate in micro-radians per microsecond: two radians per second.
pub const ROTATION_RATE: u64 = 2;

/// Speed of a seeking sprite in length quanta per second: 100 units per second.
pub const SEEK_SPEED: i64 = 100_000;

/// Distance within which a target counts as reached: 5 units.
pub const TOLERANCE: i64 = 5_000;

/// A random roll `r` stands for the fraction `r / ROLL_SCALE` in `[0, 1)`.
pub const ROLL_SCALE: i128 = 0x1_0000_0000;

/// The roll that stands for one half.
pub const MIDDLE_ROLL: u32 = 0x8000_0000;

/// A point a sprite moves toward.
#[derive(Clone, Copy, Debug, PartialEq, Eq, Structural)]
pub struct Target {
    pub x: i64,
    pub y: i64,
    /// On arrival, draw a new target instead of coming to rest.
    pub find_new_target: bool,
}

/// The arena `[0, width] x [0, height]`.
#[derive(Clone, Copy, Debug, PartialEq, Eq, Structural)]
pub struct Bounds {
    pub width: i64,
    pub height: i64,
}

impl Bounds {
    pub open spec fn wf(self) -> bool {
        0 <= self.width <= EXTENT_LIMIT && 0 <= self.height <= EXTENT_LIMIT
    }

    /// The arena is at least as large as a sprite of this size on both axes.
    pub open spec fn holds(self, size: int) -> bool {
        self.width >= size && self.height >= size
    }
}

/// One animated shape.
#[derive(Clone, Debug)]
pub struct Sprite {
    pub x: i64,
    pub y: i64,
    pub vx: i64,
    pub vy: i64,
    pub size: i64,
    pub color: String,
    /// Accumulated angle in micro-radians.
    pub rotation: u64,
    pub target: Option<Target>,
    /// Set when a target without a successor was reached: the sprite stays put
    /// until it is given a new target.
    pub stationary: bool,
}

/// What the motion model sees of a sprite.
pub struct Body {
    pub x: int,
    pub y: int,
    pub vx: int,
    pub vy: int,
    pub size: int,
    pub rotation: int,
    pub target: Option<Target>,
    pub stationary: bool,
}

pub open spec fn in_coord_range(a: int) -> bool {
    -COORD_LIMIT <= a <= COORD_LIMIT
}

impl Body {
    /// Every quantity fits the ranges that the fixed-point arithmetic handles.
    pub open spec fn wf(self) -> bool {
        &&& in_coord_range(self.x)
        &&& in_coord_range(self.y)
        &&& in_coord_range(self.vx)
        &&& in_coord_range(self.vy)
        &&& -SIZE_LIMIT <= self.size <= SIZE_LIMIT
        &&& 0 <= self.rotation
        &&& self.target matches Some(t) ==> in_coord_range(t.x as int) && in_coord_range(
            t.y as int,
        )
    }

    pub open spec fn is_free(self) -> bool {
        self.target is None && !self.stationary
    }

    /// The sprite's position lies in the clamp rectangle of `b`.
    pub open spec fn inside(self, b: Bounds) -> bool {
        &&& half(self.size) <= self.x <= b.width - half(self.size)
        &&& half(self.size) <= self.y <= b.height - half(self.size)
    }
}

/// Squared distance from `(x, y)` to the target.
pub open spec fn dist_sq(x: int, y: int, t: Target) -> int {
    (t.x - x) * (t.x - x) + (t.y - y) * (t.y - y)
}

/// A target point lies in the clamp rectangle of `b` for a sprite of this size.
pub open spec fn target_inside(t: Target, size: int, b: Bounds) -> bool {
    &&& half(size) <= t.x <= b.width - half(size)
    &&& half(size) <= t.y <= b.height - half(size)
}

/// One axis of free motion: move, and on touching or passing a wall, reverse
/// and come back to it. Returns the new position and velocity.
pub open spec fn free_axis(p: int, v: int, dt: int, lo: int, hi: int) -> (int, int) {
    let q = p + travel(v, dt);
    if q <= lo || q >= hi {
        (clamp(q, lo, hi), -v)
    } else {
        (q, v)
    }
}

/// Distance a seeking sprite covers in `dt` microseconds.
pub open spec fn seek_step(dt: int) -> int {
    travel(SEEK_SPEED as int, dt)
}

/// A coordinate drawn from `[lo, lo + span)` by a roll; an empty span gives `lo`.
pub open spec fn spawn_coord(lo: int, span: int, roll: int) -> int {
    if span > 0 {
        lo + (roll * span) / (ROLL_SCALE as int)
    } else {
        lo
    }
}

/// The target drawn on arrival when the old one asks for a successor.
pub open spec fn respawned(size: int, b: Bounds, rx: int, ry: int) -> Target {
    Target {
        x: spawn_coord(half(size), b.width - size, rx) as i64,
        y: spawn_coord(half(size), b.height - size, ry) as i64,
        find_new_target: true,
    }
}

/// The full update of one sprite by `dt` microseconds in arena `b`; `rx` and
/// `ry` are the rolls used if a new target is drawn.
pub open spec fn advanced(s: Body, dt: int, b: Bounds, rx: int, ry: int) -> Body {
    let lo = half(s.size);
    let hx = b.width - lo;
    let hy = b.height - lo;
    let rotation = s.rotation + ROTATION_RATE * dt;
    match s.target {
        None => {
            if s.stationary {
                Body { x: clamp(s.x, lo, hx), y: clamp(s.y, lo, hy), rotation, ..s }
            } else {
                let (x, vx) = free_axis(s.x, s.vx, dt, lo, hx);
                let (y, vy) = free_axis(s.y, s.vy, dt, lo, hy);
                Body { x, y, vx, vy, rotation, ..s }
            }
        },
        Some(t) => {
            let dx = t.x - s.x;
            let dy = t.y - s.y;
            let d2 = dist_sq(s.x, s.y, t);
            if d2 <= TOLERANCE * TOLERANCE {
                let (target, stationary) = if t.find_new_target {
                    (Some(respawned(s.size, b, rx, ry)), s.stationary)
                } else {
                    (None, true)
                };
                Body {
                    x: clamp(s.x, lo, hx),
                    y: clamp(s.y, lo, hy),
                    rotation,
                    target,
                    stationary,
                    ..s
                }
            } else {
                let d = isqrt(d2);
                let step = seek_step(dt);
                Body {
                    x: clamp(s.x + div_trunc(dx * step, d), lo, hx),
                    y: clamp(s.y + div_trunc(dy * step, d), lo, hy),
                    rotation,
                    ..s
                }
            }
        },
    }
}

impl View for Sprite {
    type V = Body;

    open spec fn view(&self) -> Body {
        Body {
            x: self.x as int,
            y: self.y as int,
            vx: self.vx as int,
            vy: self.vy as int,
            size: self.size as int,
            rotation: self.rotation as int,
            target: self.target,
            stationary: self.stationary,
        }
    }
}

/// One axis of free motion, as `free_axis` states it.
fn free_axis_exec(p: i64, v: i64, dt: u64, lo: i64, hi: i64) -> (r: (i64, i64))
    requires
        in_coord_range(p as int),
        in_coord_range(v as int),
        in_coord_range(lo as int),
        in_coord_range(hi as int),
    ensures
        (r.0 as int, r.1 as int) == free_axis(p as int, v as int, dt as int, lo as int, hi as int),
        in_coord_range(r.0 as int),
        in_coord_range(r.1 as int),
{
    let q: i128 = p as i128 + travel_i128(v, dt);
    if q <= lo as i128 || q >= hi as i128 {
        let c = clamp_i128(q, lo as i128, hi as i128);
        (c as i64, -v)
    } else {
        (q as i64, v)
    }
}

/// A coordinate drawn from `[lo, lo + extent - size)`, as `spawn_coord` states it.
fn spawn_coord_exec(lo: i64, extent: i64, size: i64, roll: u32) -> (c: i64)
    requires
        lo == half(size as int),
        0 <= extent <= EXTENT_LIMIT,
        -SIZE_LIMIT <= size <= SIZE_LIMIT,
    ensures
        c as int == spawn_coord(lo as int, extent - size, roll as int),
        lo <= c,
        extent >= size ==> c <= extent - lo,
{
    let span: i128 = extent as i128 - size as i128;
    if span > 0 {
        proof {
            lemma_scaled_fraction(roll as int, span as int, ROLL_SCALE as int);
        }
        let off: i128 = (roll as i128 * span) / ROLL_SCALE;
        (lo as i128 + off) as i64
    } else {
        lo
    }
}

impl Sprite {
    pub open spec fn wf(&self) -> bool {
        self@.wf()
    }

    /// A free sprite with no rotation yet.
    pub fn new(x: i64, y: i64, vx: i64, vy: i64, size: i64, color: String) -> (s: Self)
        ensures
            s.x == x && s.y == y && s.vx == vx && s.vy == vy && s.size == size,
            s.color == color,
            s.rotation == 0,
            s.target is None,
            !s.stationary,
    {
        Sprite { x, y, vx, vy, size, color, rotation: 0, target: None, stationary: false }
    }

    /// A sprite with no rotation yet, seeking `target` if there is one.
    pub fn new_with_target(
        x: i64,
        y: i64,
        vx: i64,
        vy: i64,
        size: i64,
        color: String,
        target: Option<Target>,
    ) -> (s: Self)
        ensures
            s.x == x && s.y == y && s.vx == vx && s.vy == vy && s.size == size,
            s.color == color,
            s.rotation == 0,
            s.target == target,
            !s.stationary,
    {
        Sprite { x, y, vx, vy, size, color, rotation: 0, target, stationary: false }
    }

    pub fn get_position(&self) -> (r: (i64, i64))
        ensures
            r == (self.x, self.y),
    {
        (self.x, self.y)
    }

    pub fn get_velocity(&self) -> (r: (i64, i64))
        ensures
            r == (self.vx, self.vy),
    {
        (self.vx, self.vy)
    }

    pub fn set_position(&mut self, x: i64, y: i64)
        ensures
            *final(self) == (Sprite { x, y, ..*old(self) }),
    {
        self.x = x;
        self.y = y;
    }

    pub fn set_velocity(&mut self, vx: i64, vy: i64)
        ensures
            *final(self) == (Sprite { vx, vy, ..*old(self) }),
    {
        self.vx = vx;
        self.vy = vy;
    }

    pub fn get_target(&self) -> (r: &Option<Target>)
        ensures
            *r == self.target,
    {
        &self.target
    }

    /// Replaces the target; a sprite at rest is released by this.
    pub fn set_target(&mut self, target: Option<Target>)
        ensures
            *final(self) == (Sprite { target, stationary: false, ..*old(self) }),
    {
        self.target = target;
        self.stationary = false;
    }

    pub fn is_stationary(&self) -> (r: bool)
        ensures
            r == self.stationary,
    {
        self.stationary
    }

    /// One step of `dt` microseconds in a `canvas_width` by `canvas_height`
    /// arena, as `advance` takes it. A target that asks for a successor is
    /// replaced by one at the middle of the clamp rectangle; `advance` lets
    /// the caller draw it instead.
    pub fn update(&mut self, dt: u64, canvas_width: i64, canvas_height: i64)
        requires
            old(self).wf(),
            (Bounds { width: canvas_width, height: canvas_height }).wf(),
            old(self).rotation + ROTATION_RATE * dt <= u64::MAX,
        ensures
            final(self)@ == advanced(
                old(self)@,
                dt as int,
                Bounds { width: canvas_width, height: canvas_height },
                MIDDLE_ROLL as int,
                MIDDLE_ROLL as int,
            ),
            final(self).color == old(self).color,
            final(self).wf(),
    {
        self.advance(
            dt,
            Bounds { width: canvas_width, height: canvas_height },
            MIDDLE_ROLL,
            MIDDLE_ROLL,
        );
    }

    /// Advances the sprite by `dt` microseconds in arena `bounds`: a free
    /// sprite bounces, a seeking one moves toward its target or, within
    /// tolerance of it, draws a successor from `roll_x` and `roll_y` or comes
    /// to rest. The position ends in the arena's clamp rectangle and the
    /// sprite turns in every mode.
    pub fn advance(&mut self, dt: u64, bounds: Bounds, roll_x: u32, roll_y: u32)
        requires
            old(self).wf(),
            bounds.wf(),
            old(self).rotation + ROTATION_RATE * dt <= u64::MAX,
        ensures
            final(self)@ == advanced(old(self)@, dt as int, bounds, roll_x as int, roll_y as int),
            final(self).color == old(self).color,
            final(self).wf(),
    {
        let lo = half_i64(self.size);
        let hx: i64 = bounds.width - lo;
        let hy: i64 = bounds.height - lo;
        match self.target {
            None => {
                if self.stationary {
                    self.x = clamp_i128(self.x as i128, lo as i128, hx as i128) as i64;
                    self.y = clamp_i128(self.y as i128, lo as i128, hy as i128) as i64;
                } else {
                    let (x, vx) = free_axis_exec(self.x, self.vx, dt, lo, hx);
                    let (y, vy) = free_axis_exec(self.y, self.vy, dt, lo, hy);
                    self.x = x;
                    self.vx = vx;
                    self.y = y;
                    self.vy = vy;
                }
            },
            Some(t) => {
                let dx: i128 = t.x as i128 - self.x as i128;
                let dy: i128 = t.y as i128 - self.y as i128;
                assert(dx * dx <= 4_000_000_000_000_000_000_000_000 && dy * dy
                    <= 4_000_000_000_000_000_000_000_000) by (nonlinear_arith)
                    requires
                        -2_000_000_000_000 <= dx <= 2_000_000_000_000,
                        -2_000_000_000_000 <= dy <= 2_000_000_000_000,
                ;
                assert(dx * dx >= 0 && dy * dy >= 0) by (nonlinear_arith);
                let d2: i128 = dx * dx + dy * dy;
                if d2 <= (TOLERANCE as i128) * (TOLERANCE as i128) {
                    if t.find_new_target {
                        let nx = spawn_coord_exec(lo, bounds.width, self.size, roll_x);
                        let ny = spawn_coord_exec(lo, bounds.height, self.size, roll_y);
                        self.target = Some(Target { x: nx, y: ny, find_new_target: true });
                    } else {
                        self.target = None;
                        self.stationary = true;
                    }
                    self.x = clamp_i128(self.x as i128, lo as i128, hx as i128) as i64;
                    self.y = clamp_i128(self.y as i128, lo as i128, hy as i128) as i64;
                } else {
                    let d: i128 = sqrt_floor(d2 as u128) as i128;
                    proof {
                        lemma_isqrt_bounds(d2 as int);
                    }
                    assert(d >= 1) by (nonlinear_arith)
                        requires
                            d >= 0,
                            d2 > 25_000_000,
                            d2 < (d + 1) * (d + 1),
                    ;
                    let step: i128 = div_trunc_i128(
                        (SEEK_SPEED as i128) * (dt as i128),
                        MICROS_PER_SECOND,
                    );
                    proof {
                        lemma_div_trunc_bound(SEEK_SPEED * dt, MICROS_PER_SECOND as int);
                    }
                    assert(-4_000_000_000_000_000_000_000_000_000_000_000_000 <= dx * step
                        <= 4_000_000_000_000_000_000_000_000_000_000_000_000
                        && -4_000_000_000_000_000_000_000_000_000_000_000_000 <= dy * step
                        <= 4_000_000_000_000_000_000_000_000_000_000_000_000) by (nonlinear_arith)
                        requires
                            -2_000_000_000_000 <= dx <= 2_000_000_000_000,
                            -2_000_000_000_000 <= dy <= 2_000_000_000_000,
                            0 <= step <= 1_900_000_000_000_000_000_000_000,
                    ;
                    let mx = div_trunc_i128(dx * step, d);
                    let my = div_trunc_i128(dy * step, d);
                    proof {
                        lemma_div_trunc_bound(dx * step, d as int);
                        lemma_div_trunc_bound(dy * step, d as int);
                    }
                    self.x = clamp_i128(self.x as i128 + mx, lo as i128, hx as i128) as i64;
                    self.y = clamp_i128(self.y as i128 + my, lo as i128, hy as i128) as i64;
                }
            },
        }
        self.rotation = self.rotation + ROTATION_RATE * dt;
    }
}

} // verus!
