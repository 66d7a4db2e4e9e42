// Lengths are in thousandths of a unit, times in microseconds.
use bevy_game::Sprite;

#[test]
fn sprite_integration_full_lifecycle() {
    let mut sprite = Sprite::new(50_000, 50_000, 100_000, 50_000, 20_000, "#FF0000".to_string());

    assert_eq!(sprite.get_position(), (50_000, 50_000));
    assert_eq!(sprite.get_velocity(), (100_000, 50_000));

    sprite.update(100_000, 800_000, 600_000);

    let (x, y) = sprite.get_position();
    assert_eq!(x, 60_000);
    assert_eq!(y, 55_000);

    sprite.set_position(750_000, 100_000);
    sprite.set_velocity(200_000, 0);

    sprite.update(100_000, 800_000, 600_000);

    let (new_x, new_y) = sprite.get_position();
    let (new_vx, new_vy) = sprite.get_velocity();

    // 750 + 200 * 0.1 = 770 stays short of the wall at 790: no bounce
    assert_eq!(new_x, 770_000);
    assert_eq!(new_vx, 200_000);
    assert_eq!(new_y, 100_000);
    assert_eq!(new_vy, 0);
}

#[test]
fn sprite_integration_corner_bounce() {
    let mut sprite = Sprite::new(5_000, 5_000, -50_000, -25_000, 10_000, "#00FF00".to_string());
    sprite.update(100_000, 800_000, 600_000);
    let (x, y) = sprite.get_position();
    let (vx, vy) = sprite.get_velocity();
    assert_eq!(x, 5_000);
    assert_eq!(y, 5_000);
    assert_eq!(vx, 50_000);
    assert_eq!(vy, 25_000);
}

#[test]
fn sprite_integration_multiple_updates() {
    let mut sprite = Sprite::new(400_000, 300_000, 0, 0, 15_000, "#0000FF".to_string());
    sprite.set_velocity(60_000, 30_000);
    for _ in 0..5 {
        sprite.update(100_000, 800_000, 600_000);
    }
    let (x, y) = sprite.get_position();
    assert_eq!(x, 430_000);
    assert_eq!(y, 315_000);
}

#[test]
fn sprite_integration_edge_case_zero_size() {
    let mut sprite = Sprite::new(10_000, 10_000, 100_000, 100_000, 0, "#FFFF00".to_string());
    sprite.update(100_000, 100_000, 100_000);
    let (x, y) = sprite.get_position();
    assert_eq!(x, 20_000);
    assert_eq!(y, 20_000);
}

#[test]
fn sprite_integration_large_canvas() {
    let mut sprite = Sprite::new(1_000_000, 1_000_000, 500_000, 250_000, 50_000, "#FF00FF".to_string());
    sprite.update(200_000, 2_000_000, 2_000_000);
    let (x, y) = sprite.get_position();
    assert_eq!(x, 1_100_000);
    assert_eq!(y, 1_050_000);
}
