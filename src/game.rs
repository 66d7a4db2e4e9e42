//! The scene: a collection of sprites in an arena, with the simulated time
//! that has elapsed.
use vstd::prelude::*;
use crate::laws::lemma_containment;
use crate::sprite::{advanced, Body, Bounds, Sprite, Target, MIDDLE_ROLL, ROTATION_RATE};

verus! {

pub struct BevyGame {
    pub sprites: Vec<Sprite>,
    /// Simulated time elapsed, in microseconds.
    pub time: u64,
    /// Arena size, in length quanta.
    pub width: i64,
    pub height: i64,
}

/// The sprites a new scene starts with.
pub open spec fn default_bodies() -> Seq<Body> {
    seq![
        Body {
            x: 200_000,
            y: 150_000,
            vx: 120_000,
            vy: 80_000,
            size: 40_000,
            rotation: 0,
            target: Some(Target { x: 600_000, y: 400_000, find_new_target: true }),
            stationary: false,
        },
        Body {
            x: 400_000,
            y: 300_000,
            vx: -100_000,
            vy: 150_000,
            size: 30_000,
            rotation: 0,
            target: Some(Target { x: 150_000, y: 100_000, find_new_target: false }),
            stationary: false,
        },
        Body {
            x: 100_000,
            y: 400_000,
            vx: 90_000,
            vy: -120_000,
            size: 50_000,
            rotation: 0,
            target: None,
            stationary: false,
        },
    ]
}

/// Every sprite of the collection can turn through another step of `dt`.
pub open spec fn rotation_room(sprites: Seq<Sprite>, dt: int) -> bool {
    forall|i: int| 0 <= i < sprites.len() ==> #[trigger] sprites[i].rotation + ROTATION_RATE * dt
        <= u64::MAX
}

impl BevyGame {
    pub open spec fn bounds(&self) -> Bounds {
        Bounds { width: self.width, height: self.height }
    }

    pub open spec fn wf(&self) -> bool {
        &&& self.bounds().wf()
        &&& forall|i: int| 0 <= i < self.sprites.len() ==> #[trigger] self.sprites[i].wf()
    }

    /// The three sprites a new scene starts with: two seeking, one free.
    pub fn create_default_sprites() -> (r: Vec<Sprite>)
        ensures
            r.len() == 3,
            forall|i: int| #![trigger r[i]] 0 <= i < 3 ==> r[i]@ == default_bodies()[i],
            r[0].color@ == "#FF6B6B"@,
            r[1].color@ == "#4ECDC4"@,
            r[2].color@ == "#45B7D1"@,
            forall|i: int| 0 <= i < r.len() ==> #[trigger] r[i].wf(),
    {
        let mut r: Vec<Sprite> = Vec::new();
        r.push(
            Sprite::new_with_target(
                200_000,
                150_000,
                120_000,
                80_000,
                40_000,
                "#FF6B6B".to_string(),
                Some(Target { x: 600_000, y: 400_000, find_new_target: true }),
            ),
        );
        r.push(
            Sprite::new_with_target(
                400_000,
                300_000,
                -100_000,
                150_000,
                30_000,
                "#4ECDC4".to_string(),
                Some(Target { x: 150_000, y: 100_000, find_new_target: false }),
            ),
        );
        r.push(Sprite::new(100_000, 400_000, 90_000, -120_000, 50_000, "#45B7D1".to_string()));
        r
    }

    /// A scene with the default sprites in a `width` by `height` arena, at time zero.
    pub fn new(width: i64, height: i64) -> (g: Self)
        requires
            (Bounds { width, height }).wf(),
        ensures
            g.wf(),
            g.sprites.len() == 3,
            g.sprites[0].color@ == "#FF6B6B"@,
            g.sprites[1].color@ == "#4ECDC4"@,
            g.sprites[2].color@ == "#45B7D1"@,
            forall|i: int|
                #![trigger g.sprites[i]]
                0 <= i < 3 ==> g.sprites[i]@ == default_bodies()[i],
            g.time == 0,
            g.width == width && g.height == height,
    {
        let sprites = Self::create_default_sprites();
        BevyGame { sprites, time: 0, width, height }
    }

    pub fn get_sprite_count(&self) -> (r: usize)
        ensures
            r == self.sprites.len(),
    {
        self.sprites.len()
    }

    pub fn get_sprites_count(&self) -> (r: usize)
        ensures
            r == self.sprites.len(),
    {
        self.sprites.len()
    }

    pub fn get_time(&self) -> (r: u64)
        ensures
            r == self.time,
    {
        self.time
    }

    pub fn advance_time(&mut self, dt: u64)
        requires
            old(self).time + dt <= u64::MAX,
        ensures
            *final(self) == (BevyGame { time: (old(self).time + dt) as u64, ..*old(self) }),
    {
        self.time = self.time + dt;
    }

    pub fn get_canvas_width(&self) -> (r: i64)
        ensures
            r == self.width,
    {
        self.width
    }

    pub fn get_canvas_height(&self) -> (r: i64)
        ensures
            r == self.height,
    {
        self.height
    }

    /// Follows a resize of the arena; sprites come back inside on their next step.
    pub fn set_canvas_size(&mut self, width: i64, height: i64)
        requires
            (Bounds { width, height }).wf(),
        ensures
            *final(self) == (BevyGame { width, height, ..*old(self) }),
    {
        self.width = width;
        self.height = height;
    }

    /// Whether every sprite can turn through another step of `dt`, as the
    /// stepping methods require.
    pub fn has_rotation_room(&self, dt: u64) -> (r: bool)
        requires
            dt <= u64::MAX / 2,
        ensures
            r == rotation_room(self.sprites@, dt as int),
    {
        let limit: u64 = u64::MAX - ROTATION_RATE * dt;
        let mut i: usize = 0;
        while i < self.sprites.len()
            invariant
                i <= self.sprites.len(),
                limit == u64::MAX - ROTATION_RATE * dt,
                forall|j: int| 0 <= j < i ==> #[trigger] self.sprites[j].rotation
                    + ROTATION_RATE * dt <= u64::MAX,
            decreases self.sprites.len() - i,
        {
            if self.sprites[i].rotation > limit {
                return false;
            }
            i = i + 1;
        }
        true
    }

    /// Steps every sprite by `dt` microseconds with `Sprite::update`, without
    /// moving the clock.
    pub fn update_sprites(&mut self, dt: u64)
        requires
            old(self).wf(),
            rotation_room(old(self).sprites@, dt as int),
        ensures
            final(self).wf(),
            final(self).sprites.len() == old(self).sprites.len(),
            forall|i: int|
                0 <= i < old(self).sprites.len() ==> #[trigger] final(self).sprites[i]@ == advanced(
                    old(self).sprites[i]@,
                    dt as int,
                    old(self).bounds(),
                    MIDDLE_ROLL as int,
                    MIDDLE_ROLL as int,
                ) && final(self).sprites[i].color == old(self).sprites[i].color,
            final(self).time == old(self).time,
            final(self).bounds() == old(self).bounds(),
    {
        let n = self.sprites.len();
        let mut i: usize = 0;
        while i < n
            invariant
                n == self.sprites.len() == old(self).sprites.len(),
                i <= n,
                self.time == old(self).time,
                self.bounds() == old(self).bounds(),
                self.bounds().wf(),
                forall|j: int| 0 <= j < n ==> #[trigger] self.sprites[j].wf(),
                forall|j: int|
                    0 <= j < i ==> #[trigger] self.sprites[j]@ == advanced(
                        old(self).sprites[j]@,
                        dt as int,
                        old(self).bounds(),
                        MIDDLE_ROLL as int,
                        MIDDLE_ROLL as int,
                    ) && self.sprites[j].color == old(self).sprites[j].color,
                forall|j: int| i <= j < n ==> #[trigger] self.sprites[j] == old(self).sprites[j],
                rotation_room(old(self).sprites@, dt as int),
            decreases n - i,
        {
            assert(old(self).sprites@[i as int].rotation + ROTATION_RATE * dt <= u64::MAX);
            let w = self.width;
            let h = self.height;
            self.sprites[i].update(dt, w, h);
            i = i + 1;
        }
    }

    /// One frame of the scene: the clock moves on by `dt` microseconds and
    /// every sprite advances by it, sprite `i` drawing a new target, if it
    /// needs one, from the rolls `rolls[i]`.
    pub fn advance_frame(&mut self, dt: u64, rolls: &Vec<(u32, u32)>)
        requires
            old(self).wf(),
            rolls.len() == old(self).sprites.len(),
            old(self).time + dt <= u64::MAX,
            rotation_room(old(self).sprites@, dt as int),
        ensures
            final(self).wf(),
            final(self).time == old(self).time + dt,
            final(self).bounds() == old(self).bounds(),
            final(self).sprites.len() == old(self).sprites.len(),
            forall|i: int|
                0 <= i < old(self).sprites.len() ==> #[trigger] final(self).sprites[i]@ == advanced(
                    old(self).sprites[i]@,
                    dt as int,
                    old(self).bounds(),
                    rolls[i].0 as int,
                    rolls[i].1 as int,
                ) && final(self).sprites[i].color == old(self).sprites[i].color,
            forall|i: int|
                0 <= i < old(self).sprites.len() && old(self).bounds().holds(
                    old(self).sprites[i].size as int,
                ) ==> #[trigger] final(self).sprites[i]@.inside(old(self).bounds()),
    {
        self.time = self.time + dt;
        let bounds = Bounds { width: self.width, height: self.height };
        let n = self.sprites.len();
        let mut i: usize = 0;
        while i < n
            invariant
                n == self.sprites.len() == old(self).sprites.len() == rolls.len(),
                i <= n,
                self.time == old(self).time + dt,
                self.bounds() == old(self).bounds(),
                bounds == old(self).bounds(),
                bounds.wf(),
                forall|j: int| 0 <= j < n ==> #[trigger] self.sprites[j].wf(),
                forall|j: int|
                    0 <= j < i ==> #[trigger] self.sprites[j]@ == advanced(
                        old(self).sprites[j]@,
                        dt as int,
                        bounds,
                        rolls[j].0 as int,
                        rolls[j].1 as int,
                    ) && self.sprites[j].color == old(self).sprites[j].color,
                forall|j: int|
                    0 <= j < i && bounds.holds(old(self).sprites[j].size as int)
                        ==> #[trigger] self.sprites[j]@.inside(bounds),
                forall|j: int| i <= j < n ==> #[trigger] self.sprites[j] == old(self).sprites[j],
                rotation_room(old(self).sprites@, dt as int),
            decreases n - i,
        {
            assert(old(self).sprites@[i as int].rotation + ROTATION_RATE * dt <= u64::MAX);
            proof {
                if bounds.holds(self.sprites[i as int].size as int) {
                    assert(self.sprites[i as int].wf());
                    lemma_containment(
                        self.sprites[i as int]@,
                        dt as nat,
                        bounds,
                        rolls[i as int].0,
                        rolls[i as int].1,
                    );
                }
            }
            let (rx, ry) = rolls[i];
            self.sprites[i].advance(dt, bounds, rx, ry);
            i = i + 1;
        }
    }

    pub fn clear_sprites(&mut self)
        ensures
            final(self).sprites@ == Seq::<Sprite>::empty(),
            final(self).time == old(self).time,
            final(self).bounds() == old(self).bounds(),
    {
        self.sprites.clear();
    }
}

} // verus!
