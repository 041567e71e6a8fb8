use minigolf::vector2d::Vector2D;

#[test]
fn test_addition() {
    let vec1 = Vector2D::new(1, 2);
    let vec2 = Vector2D::new(3, 4);
    let result = vec1 + vec2;
    assert_eq!(result.x, 4);
    assert_eq!(result.y, 6);
}

#[test]
fn test_subtraction() {
    let vec1 = Vector2D::new(5, 7);
    let vec2 = Vector2D::new(2, 3);
    let result = vec1 - vec2;
    assert_eq!(result.x, 3);
    assert_eq!(result.y, 4);
}

#[test]
fn test_multiplication() {
    let vec = Vector2D::new(2, 3);
    let result = vec * 3;
    assert_eq!(result.x, 6);
    assert_eq!(result.y, 9);
}

#[test]
fn division_negation_and_zero() {
    let v = Vector2D::new(9, -6);
    let half = v / 3;
    assert_eq!((half.x, half.y), (3, -2));
    let n = -v;
    assert_eq!((n.x, n.y), (-9, 6));
    let z: Vector2D<i32> = Vector2D::zero();
    assert_eq!((z.x, z.y), (0, 0));
    let mut acc = Vector2D::new(1i64, 2i64);
    acc += Vector2D::new(10, 20);
    assert_eq!((acc.x, acc.y), (11, 22));
}

#[test]
fn operators_work_on_floats() {
    let v = Vector2D::new(1.5f32, -2.0f32) + Vector2D::new(0.5, 1.0);
    assert_eq!((v.x, v.y), (2.0, -1.0));
    let w = (v * 2.0) - Vector2D::new(1.0, 1.0);
    assert_eq!((w.x, w.y), (3.0, -3.0));
}
