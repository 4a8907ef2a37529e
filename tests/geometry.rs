use rayna::math::{Intersection, Line, Ray, Vector2, ONE};

fn fx(v: f32) -> i64 {
    (v * ONE as f32).round() as i64
}

fn v(x: f32, y: f32) -> Vector2 {
    Vector2::new(fx(x), fx(y))
}

fn unit(degrees: f32) -> Vector2 {
    let a = degrees.to_radians();
    v(a.cos(), a.sin())
}

fn line(a: (f32, f32), b: (f32, f32)) -> Line {
    Line { start: v(a.0, a.1), end: v(b.0, b.1) }
}

#[test]
fn test_rotate() {
    assert_eq!(v(1.0, 0.0).rotate(&unit(0.0)), v(1.0, 0.0));
    assert_eq!(v(1.0, 0.0).rotate(&unit(90.0)), v(-4.371139e-8, 1.0));
    assert_eq!(v(1.0, 0.0).rotate(&unit(180.0)), v(-1.0, -8.742278e-8));
    assert_eq!(v(1.0, 0.0).rotate(&unit(270.0)), v(1.1924881e-8, -1.0));
    assert_eq!(v(1.0, 0.0).rotate(&unit(360.0)), v(1.0, 1.7484555e-7));
    assert_eq!(v(1.0, 0.0).rotate(&unit(45.0)), v(0.70710677, 0.7071068));
}

#[test]
fn test_magnitude() {
    let a = v(3.0, 4.0);
    assert_eq!(a.magnitude(), fx(5.0));
}

#[test]
fn test_intersection() {
    let ray = Ray { origin: v(0.0, 0.0), direction: v(1.0, 0.0) };

    let intersection = line((1.0, -1.0), (1.0, 1.0)).cast(&ray);
    assert!(intersection.is_some());
    let Intersection { distance, position, .. } = intersection.unwrap();
    assert_eq!(distance, fx(1.0));
    assert_eq!(position.x, fx(1.0));
    assert_eq!(position.y, fx(0.0));

    let intersection = line((2.0, -1.0), (2.0, 1.0)).cast(&ray);
    assert!(intersection.is_some());
    let Intersection { distance, position, .. } = intersection.unwrap();
    assert_eq!(distance, fx(2.0));
    assert_eq!(position.x, fx(2.0));
    assert_eq!(position.y, fx(0.0));

    let intersection = line((2.0, -1.0), (2.0, -2.0)).cast(&ray);
    assert!(intersection.is_none());

    let intersection = line((1.0, 0.0), (2.0, 0.0)).cast(&ray);
    assert!(intersection.is_none());

    let intersection = line((0.0, 0.0), (2.0, 0.0)).cast(&ray);
    assert!(intersection.is_none());

    let ray = Ray { origin: v(2.0, 0.0), direction: v(-1.0, 0.0) };
    let intersection = line((0.0, 0.0), (2.0, 0.0)).cast(&ray);
    assert!(intersection.is_none());

    let ray = Ray { origin: v(0.0, 0.0), direction: v(1.0, 0.0) }.rotate(&unit(45.0));
    let intersection = line((1.0, -1.0), (1.0, 2.0)).cast(&ray);
    assert!(intersection.is_some());
    let Intersection { distance, position, .. } = intersection.unwrap();
    // sqrt(2) to 16 fractional bits, rounded down: 92681 / 65536 = 1.41420...
    assert_eq!(distance, 92681);
    assert_eq!(position.x, fx(1.0));
    assert_eq!(position.y, fx(1.0000001));
}

#[test]
fn test_intersection_offset() {
    let ray = Ray { origin: v(0.0, 0.0), direction: v(1.0, 0.0) };
    let intersection = line((1.0, -1.0), (1.0, 1.0)).cast(&ray);
    assert!(intersection.is_some());
    let Intersection { offset, .. } = intersection.unwrap();
    assert_eq!(offset, fx(0.5));
}

#[test]
fn vector_arithmetic() {
    let a = v(1.5, -2.0);
    let b = v(0.5, 4.0);
    assert_eq!(a.add(&b), v(2.0, 2.0));
    assert_eq!(a.subtract(&b), v(1.0, -6.0));
    assert_eq!(a.multiply(fx(2.0)), v(3.0, -4.0));
    assert_eq!(a.multiply(fx(-1.0)), v(-1.5, 2.0));
    assert_eq!(a.negate(), v(-1.5, 2.0));
    // 1.5 * 4 - (-2) * 0.5 = 7, in units of ONE squared.
    assert_eq!(a.cross(&b), 7 * (ONE as i128) * (ONE as i128));
}

#[test]
fn multiply_rounds_down() {
    let a = Vector2::new(3, -3);
    assert_eq!(a.multiply(ONE / 2), Vector2::new(1, -2));
}

#[test]
fn full_turn_of_quarter_turns_is_identity() {
    let start = v(3.25, -7.5);
    let q = Vector2::new(0, ONE);
    let once = start.rotate(&q);
    assert_eq!(once, v(7.5, 3.25));
    let back = once.rotate(&q).rotate(&q).rotate(&q);
    assert_eq!(back, start);
}

#[test]
fn magnitude_rounds_down() {
    assert_eq!(Vector2::new(1, 1).magnitude(), 1);
    assert_eq!(Vector2::new(0, 0).magnitude(), 0);
    assert_eq!(v(-6.0, 8.0).magnitude(), fx(10.0));
}

#[test]
fn intersection_behind_ray_is_ignored() {
    let ray = Ray { origin: v(0.0, 0.0), direction: v(1.0, 0.0) };
    assert!(line((-1.0, -1.0), (-1.0, 1.0)).cast(&ray).is_none());
}

#[test]
fn intersection_at_segment_ends() {
    let ray = Ray { origin: v(0.0, 0.0), direction: v(1.0, 0.0) };
    let at_start = line((1.0, 0.0), (1.0, 1.0)).cast(&ray).unwrap();
    assert_eq!(at_start.offset, 0);
    let at_end = line((1.0, 1.0), (1.0, 0.0)).cast(&ray).unwrap();
    assert_eq!(at_end.offset, ONE);
    assert!(line((1.0, 0.5), (1.0, 1.0)).cast(&ray).is_none());
}

#[test]
fn distance_scales_with_direction_length() {
    let ray = Ray { origin: v(0.0, 0.0), direction: v(0.5, 0.0) };
    let hit = line((2.0, -1.0), (2.0, 1.0)).cast(&ray).unwrap();
    assert_eq!(hit.distance, fx(2.0));
    assert_eq!(hit.position, v(2.0, 0.0));
    let ray = Ray { origin: v(0.0, 0.0), direction: v(4.0, 0.0) };
    let hit = line((2.0, -1.0), (2.0, 1.0)).cast(&ray).unwrap();
    assert_eq!(hit.distance, fx(2.0));
}

#[test]
fn ray_translate_and_rotate() {
    let ray = Ray::new(v(0.0, 0.0), v(1.0, 0.0));
    let moved = ray.translate(&v(2.0, 3.0));
    assert_eq!(moved.origin, v(2.0, 3.0));
    assert_eq!(moved.direction, v(1.0, 0.0));
    let turned = moved.rotate(&Vector2::new(0, ONE));
    assert_eq!(turned.origin, v(2.0, 3.0));
    assert_eq!(turned.direction, v(0.0, 1.0));
}
