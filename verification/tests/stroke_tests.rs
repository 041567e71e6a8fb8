use minigolf::stroke::ShootingMode;
use minigolf::vector2d::Vector2D;

#[test]
fn shooting_mode_next_test() {
    assert_eq!(ShootingMode::Normal.next(), ShootingMode::Reverse);
    assert_eq!(ShootingMode::Reverse.next(), ShootingMode::Right);
    assert_eq!(ShootingMode::Right.next(), ShootingMode::Left);
    assert_eq!(ShootingMode::Left.next(), ShootingMode::Normal);
}

#[test]
fn four_steps_close_the_cycle() {
    for n in 0..4 {
        let mode = ShootingMode::from_i32(n).unwrap();
        assert_eq!(mode.to_i32(), n);
        assert_eq!(mode.next().to_i32(), (n + 1) % 4);
        assert_eq!(mode.next().next().next().next(), mode);
        assert_ne!(mode.next(), mode);
        assert_ne!(mode.next().next(), mode);
    }
    assert_eq!(ShootingMode::from_i32(4), None);
    assert_eq!(ShootingMode::from_i32(-1), None);
}

#[test]
fn modes_turn_a_direction() {
    let v = Vector2D::new(3, 4);
    let same = ShootingMode::Normal.turn(v);
    assert_eq!((same.x, same.y), (3, 4));
    let back = ShootingMode::Reverse.turn(v);
    assert_eq!((back.x, back.y), (-3, -4));
    let right = ShootingMode::Right.turn(v);
    assert_eq!((right.x, right.y), (4, -3));
    let left = ShootingMode::Left.turn(v);
    assert_eq!((left.x, left.y), (-4, 3));
    let f = ShootingMode::Right.turn(Vector2D::new(1.5f32, -2.5f32));
    assert_eq!((f.x, f.y), (-2.5, -1.5));
}
