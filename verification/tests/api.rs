//! The small arithmetic and construction surface.
use raytrace::fx::{lerp, SCALE};
use raytrace::rgb::Rgb;
use raytrace::shapes::sphere::Sphere;
use raytrace::shapes::{pure_color_shape, RayBuilder, Shape};
use raytrace::vectors::{make_dir, make_pos, Vector3, Vector4};

#[test]
fn lerp_interpolates() {
    assert_eq!(lerp(0, 100, 200), 100);
    assert_eq!(lerp(SCALE, 100, 200), 200);
    assert_eq!(lerp(SCALE / 2, 100, 200), 150);
    assert_eq!(lerp(SCALE / 4, 0, -400), -100);
}

#[test]
fn vector_constructors_and_getters() {
    assert_eq!(Vector3::zero(), Vector3::new(0, 0, 0));
    assert_eq!(Vector3::back(), Vector3::new(0, 0, -SCALE));
    assert_eq!(Vector3::forward(), Vector3::new(0, 0, SCALE));
    assert_eq!(Vector3::up(), Vector3::new(0, SCALE, 0));
    assert_eq!(Vector3::down(), Vector3::new(0, -SCALE, 0));
    assert_eq!(Vector3::left(), Vector3::new(-SCALE, 0, 0));
    assert_eq!(Vector3::one(), Vector3::new(SCALE, SCALE, SCALE));
    let v = Vector3::new(1, 2, 3);
    assert_eq!((v.x(), v.y(), v.z()), (1, 2, 3));
}

#[test]
fn dot_and_lengths() {
    let a = Vector3::new(2 * SCALE, 0, 0);
    let b = Vector3::new(3 * SCALE, 4 * SCALE, 0);
    // 2 * 3 = 6 in fixed point.
    assert_eq!(a.dot(&b), 6 * SCALE);
    assert_eq!(b.squared_len(), 25 * SCALE);
    assert_eq!(b.length(), 5 * SCALE);
    assert_eq!(b.unit(), Vector3::new(3 * SCALE / 5, 4 * SCALE / 5, 0));
}

#[test]
fn homogeneous_extension() {
    let v = Vector3::new(7, 8, 9);
    assert_eq!(make_pos(&v), Vector4 { x: 7, y: 8, z: 9, w: SCALE });
    assert_eq!(make_dir(&v), Vector4 { x: 7, y: 8, z: 9, w: 0 });
}

#[test]
fn rgb_arithmetic() {
    let c = Rgb::new(100, 200, 300);
    let d = c.add(&Rgb::new(1, 2, 3));
    assert_eq!(d, Rgb::new(101, 202, 303));
    assert_eq!(d.sub(&c), Rgb::new(1, 2, 3));
    assert_eq!(Rgb::white().scale(SCALE / 2), Rgb::new(SCALE / 2, SCALE / 2, SCALE / 2));
    assert_eq!(Rgb::new(90, 60, 30).div_count(3), Rgb::new(30, 20, 10));
    let mut acc = Rgb::black();
    acc.add_assign(Rgb::new(5, 6, 7));
    acc.add_assign(Rgb::new(5, 6, 7));
    assert_eq!(acc, Rgb::new(10, 12, 14));
    assert_eq!(Rgb::default(), Rgb::black());
}

#[test]
fn moving_shape_is_displaced_per_sample_time() {
    // A shape with a velocity stands at its transform at time zero and one
    // full velocity step away at time one; a ray aimed at the displaced
    // position hits only at the later time.
    let mut ts = pure_color_shape(
        Rgb::white(),
        Shape::Sphere(Sphere::new(Vector3::new(0, 0, -4 * SCALE), SCALE / 2)),
    );
    ts.velocity = Vector3::new(2 * SCALE, 0, 0);
    let straight = RayBuilder {
        origin: Vector3::zero(),
        direction: Vector3::new(0, 0, -SCALE),
    }
    .build();
    let displaced = RayBuilder {
        origin: Vector3::new(2 * SCALE, 0, 0),
        direction: Vector3::new(0, 0, -SCALE),
    }
    .build();
    assert!(ts.hit(&straight, 66, 1000 * SCALE, 0).is_some());
    assert!(ts.hit(&straight, 66, 1000 * SCALE, SCALE).is_none());
    assert!(ts.hit(&displaced, 66, 1000 * SCALE, SCALE).is_some());
    assert!(ts.hit(&displaced, 66, 1000 * SCALE, 0).is_none());
    assert_eq!(ts.translation_at(SCALE), Vector3::new(2 * SCALE, 0, 0));
    assert_eq!(ts.translation_at(0), Vector3::zero());
}
