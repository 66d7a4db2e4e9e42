// Lengths are in thousandths of a unit, times in microseconds, angles in
// micro-radians.
use bevy_game::fixed::{clamp_i128, div_trunc_i128, half_i64, sqrt_floor, travel_i128};
use bevy_game::{Ball, BevyGame, Bounds, Scheduler, Sprite, Target, Tick};

fn arena() -> Bounds {
    Bounds { width: 800_000, height: 600_000 }
}

#[test]
fn advance_free_sprite_moves_and_turns() {
    let mut s = Sprite::new(100_000, 100_000, 50_000, 25_000, 10_000, "#000000".to_string());
    s.advance(100_000, arena(), 0, 0);
    assert_eq!(s.get_position(), (105_000, 102_500));
    assert_eq!(s.get_velocity(), (50_000, 25_000));
    assert_eq!(s.rotation, 200_000);
}

#[test]
fn advance_free_sprite_bounces_off_left_wall() {
    let mut s = Sprite::new(5_000, 100_000, -50_000, 0, 10_000, "#000000".to_string());
    s.advance(100_000, arena(), 0, 0);
    assert_eq!(s.x, 5_000);
    assert_eq!(s.get_velocity(), (50_000, 0));
}

#[test]
fn advance_zero_step_changes_nothing() {
    let mut s = Sprite::new(300_000, 200_000, -70_000, 40_000, 10_000, "#000000".to_string());
    s.advance(0, arena(), 0, 0);
    assert_eq!(s.get_position(), (300_000, 200_000));
    assert_eq!(s.get_velocity(), (-70_000, 40_000));
    assert_eq!(s.rotation, 0);
}

#[test]
fn advance_seeking_sprite_moves_toward_target() {
    let target = Target { x: 400_000, y: 500_000, find_new_target: false };
    let mut s = Sprite::new_with_target(100_000, 100_000, 7_000, 9_000, 10_000, "#000000".to_string(), Some(target));
    s.advance(100_000, arena(), 0, 0);
    // distance 500 units, step 10 units along (3/5, 4/5)
    assert_eq!(s.get_position(), (106_000, 108_000));
    assert_eq!(s.get_velocity(), (7_000, 9_000));
    assert_eq!(*s.get_target(), Some(target));
    assert_eq!(s.rotation, 200_000);
}

#[test]
fn advance_seeking_sprite_gets_closer_each_step() {
    let target = Target { x: 400_000, y: 300_000, find_new_target: false };
    let mut s = Sprite::new_with_target(100_000, 100_000, 0, 0, 10_000, "#000000".to_string(), Some(target));
    let dist_sq = |s: &Sprite| {
        let dx = (target.x - s.x) as i128;
        let dy = (target.y - s.y) as i128;
        dx * dx + dy * dy
    };
    let mut last = dist_sq(&s);
    let mut steps = 0;
    while s.get_target().is_some() {
        s.advance(16_000, arena(), 0, 0);
        if s.get_target().is_some() {
            let now = dist_sq(&s);
            assert!(now < last);
            last = now;
        }
        steps += 1;
        assert!(steps < 10_000);
    }
    assert!(s.is_stationary());
    let rest = s.get_position();
    s.advance(16_000, arena(), 0, 0);
    assert_eq!(s.get_position(), rest);
}

#[test]
fn advance_arrival_without_successor_comes_to_rest() {
    let target = Target { x: 103_000, y: 104_000, find_new_target: false };
    let mut s = Sprite::new_with_target(100_000, 100_000, 30_000, 0, 10_000, "#000000".to_string(), Some(target));
    s.advance(16_000, arena(), 0, 0);
    assert_eq!(*s.get_target(), None);
    assert!(s.is_stationary());
    assert_eq!(s.get_position(), (100_000, 100_000));
    assert_eq!(s.get_velocity(), (30_000, 0));
    s.advance(100_000, arena(), 0, 0);
    assert_eq!(s.get_position(), (100_000, 100_000));
    s.set_target(None);
    assert!(!s.is_stationary());
}

#[test]
fn advance_arrival_with_successor_draws_target_in_arena() {
    let target = Target { x: 100_000, y: 100_000, find_new_target: true };
    let mut s = Sprite::new_with_target(100_000, 100_000, 0, 0, 10_000, "#000000".to_string(), Some(target));
    s.advance(16_000, arena(), 0, u32::MAX);
    let next = s.get_target().expect("a new target");
    assert!(next.find_new_target);
    assert_eq!(next.x, 5_000);
    assert_eq!(next.y, 594_999);
    assert!(!s.is_stationary());
}

#[test]
fn advance_clamps_sprite_outside_a_shrunken_arena() {
    let mut s = Sprite::new(700_000, 500_000, 0, 0, 10_000, "#000000".to_string());
    s.advance(16_000, Bounds { width: 400_000, height: 300_000 }, 0, 0);
    assert_eq!(s.get_position(), (395_000, 295_000));
}

#[test]
fn game_frame_advances_time_and_every_sprite() {
    let mut game = BevyGame::new(800_000, 600_000);
    let rolls = vec![(0u32, 0u32); 3];
    assert!(game.has_rotation_room(16_000));
    game.advance_frame(16_000, &rolls);
    assert_eq!(game.get_time(), 16_000);
    // the free sprite moves by its velocity
    assert_eq!(game.sprites[2].get_position(), (101_440, 398_080));
    // the seeking sprites move 1.6 units toward their targets
    let (x0, y0) = game.sprites[0].get_position();
    assert!(x0 > 200_000 && y0 > 150_000);
    let (x1, y1) = game.sprites[1].get_position();
    assert!(x1 < 400_000 && y1 < 300_000);
    for s in &game.sprites {
        assert_eq!(s.rotation, 32_000);
    }
}

#[test]
fn game_update_sprites_steps_every_sprite() {
    let mut game = BevyGame::new(800_000, 600_000);
    game.update_sprites(100_000);
    assert_eq!(game.sprites[0].get_position(), (208_479, 155_299));
    assert_eq!(game.sprites[2].get_position(), (109_000, 388_000));
    assert_eq!(game.get_time(), 0);
    game.clear_sprites();
    assert_eq!(game.get_sprites_count(), 0);
    assert_eq!(game.get_sprite_count(), 0);
}

#[test]
fn game_new_has_default_colours() {
    let game = BevyGame::new(800_000, 600_000);
    assert_eq!(game.sprites[0].color, "#FF6B6B");
    assert_eq!(game.sprites[1].color, "#4ECDC4");
    assert_eq!(game.sprites[2].color, "#45B7D1");
}

#[test]
fn update_moves_seeking_sprite_toward_target() {
    let target = Target { x: 400_000, y: 500_000, find_new_target: false };
    let mut s = Sprite::new_with_target(100_000, 100_000, 0, 0, 10_000, "#000000".to_string(), Some(target));
    s.update(100_000, 800_000, 600_000);
    assert_eq!(s.get_position(), (106_000, 108_000));
    assert_eq!(*s.get_target(), Some(target));
}

#[test]
fn update_clamps_seeking_sprite_into_arena() {
    let target = Target { x: 400_000, y: 300_000, find_new_target: false };
    let mut s = Sprite::new_with_target(0, 0, 0, 0, 10_000, "#000000".to_string(), Some(target));
    s.update(0, 800_000, 600_000);
    assert_eq!(s.get_position(), (5_000, 5_000));
}

#[test]
fn update_respawns_target_at_arena_middle() {
    let target = Target { x: 100_000, y: 100_000, find_new_target: true };
    let mut s = Sprite::new_with_target(100_000, 100_000, 0, 0, 10_000, "#000000".to_string(), Some(target));
    s.update(16_000, 800_000, 600_000);
    assert_eq!(*s.get_target(), Some(Target { x: 400_000, y: 300_000, find_new_target: true }));
}

#[test]
fn game_rotation_room_detects_overflow() {
    let mut game = BevyGame::new(800_000, 600_000);
    game.sprites[1].rotation = u64::MAX - 10;
    assert!(game.has_rotation_room(5));
    assert!(!game.has_rotation_room(6));
}

#[test]
fn game_resize_changes_bounds() {
    let mut game = BevyGame::new(800_000, 600_000);
    game.set_canvas_size(640_000, 480_000);
    assert_eq!(game.get_canvas_width(), 640_000);
    assert_eq!(game.get_canvas_height(), 480_000);
}

#[test]
fn scheduler_stop_before_start_is_idle() {
    let mut s = Scheduler::new();
    assert!(!s.stop());
    assert!(!s.is_running());
    assert!(!s.has_pending());
    assert!(!s.stop());
}

#[test]
fn scheduler_runs_ticks_and_stops() {
    let mut s = Scheduler::new();
    assert!(s.start());
    assert!(!s.start());
    assert_eq!(s.tick(1_000_000), Tick::Baseline);
    assert_eq!(s.tick(1_016_000), Tick::Advance(16_000));
    assert_eq!(s.tick(1_010_000), Tick::Advance(0));
    assert!(s.stop());
    assert!(!s.stop());
    assert!(!s.is_running());
    assert!(!s.has_pending());
    assert_eq!(s.tick(1_050_000), Tick::Ignored);
}

#[test]
fn scheduler_restart_resets_the_clock() {
    let mut s = Scheduler::new();
    s.start();
    s.tick(5_000);
    s.tick(21_000);
    s.stop();
    assert!(s.start());
    assert_eq!(s.tick(900_000), Tick::Baseline);
    assert_eq!(s.tick(910_000), Tick::Advance(10_000));
}

#[test]
fn ball_new_has_default_motion() {
    let b = Ball::new(400_000, 300_000);
    assert_eq!((b.velocity_x, b.velocity_y, b.radius), (150_000, 100_000, 20_000));
}

#[test]
fn ball_update_moves_and_bounces() {
    let mut b = Ball::new(400_000, 300_000);
    b.update(100_000, 800_000, 600_000);
    assert_eq!((b.x, b.y), (415_000, 310_000));
    let mut c = Ball::new(770_000, 300_000);
    c.update(100_000, 800_000, 600_000);
    assert_eq!(c.x, 780_000);
    assert_eq!(c.velocity_x, -150_000);
}

#[test]
fn ball_bounces_on_exact_touch() {
    let mut b = Ball::new(765_000, 300_000);
    b.update(100_000, 800_000, 600_000);
    assert_eq!(b.x, 780_000);
    assert_eq!(b.velocity_x, -150_000);
}

#[test]
fn ball_in_canvas_smaller_than_itself_does_not_crash() {
    let mut b = Ball::new(10_000, 10_000);
    b.update(16_000, 30_000, 30_000);
    assert_eq!((b.x, b.y), (20_000, 20_000));
}

#[test]
fn ball_redirect_aims_at_point() {
    let mut b = Ball::new(100_000, 100_000);
    b.redirect_towards(103_000, 104_000);
    assert_eq!((b.velocity_x, b.velocity_y), (120_000, 160_000));
    b.redirect_towards(100_000, 100_000);
    assert_eq!((b.velocity_x, b.velocity_y), (120_000, 160_000));
    b.redirect_towards(90_000, 100_000);
    assert_eq!((b.velocity_x, b.velocity_y), (-200_000, 0));
}

#[test]
fn fixed_point_helpers() {
    assert_eq!(sqrt_floor(0), 0);
    assert_eq!(sqrt_floor(24), 4);
    assert_eq!(sqrt_floor(25), 5);
    assert_eq!(sqrt_floor((1u128 << 84) - 1), (1u128 << 42) - 1);
    assert_eq!(div_trunc_i128(-7, 2), -3);
    assert_eq!(div_trunc_i128(7, 2), 3);
    assert_eq!(half_i64(-11), -6);
    assert_eq!(half_i64(11), 5);
    assert_eq!(clamp_i128(10, 0, 5), 5);
    assert_eq!(clamp_i128(-3, 0, 5), 0);
    assert_eq!(clamp_i128(3, 4, 2), 4);
    assert_eq!(travel_i128(-50_000, 100_000), -5_000);
}
