//! Vector algebra and ray–primitive intersection behavior.
use raytrace::fx::SCALE;
use raytrace::shapes::sphere::Sphere;
use raytrace::shapes::triangle::Triangle;
use raytrace::shapes::RayBuilder;
use raytrace::vectors::Vector3;

fn v(x: i64, y: i64, z: i64) -> Vector3 {
    Vector3::new(x * SCALE, y * SCALE, z * SCALE)
}

#[test]
fn vector_tests() {
    assert_eq!(
        Vector3::new(0, 0, -SCALE).cross(&Vector3::new(0, SCALE, 0)),
        Vector3::new(SCALE, 0, 0)
    );
}

#[test]
fn unit_length_within_tolerance() {
    // A unit vector's length stays within one raw step (far below 1e-5 of a
    // unit when scaled) of exactly one.
    // (Vectors much shorter than one unit lose precision to the raw grid,
    // so the samples stay at unit magnitude or above.)
    let samples = [
        Vector3::new(3 * SCALE, 4 * SCALE, 0),
        Vector3::new(SCALE, 2 * SCALE, 3 * SCALE),
        Vector3::new(-700 * SCALE, 1, 55),
        Vector3::new(12345 * 16, -54321 * 16, 777 * 16),
        Vector3::new(-SCALE, -SCALE, -SCALE),
    ];
    for s in samples {
        let u = s.unit();
        let l = u.length();
        assert!(
            (SCALE - 1..=SCALE).contains(&l),
            "unit length out of tolerance: {l}"
        );
    }
}

#[test]
fn sphere_head_on_hit_at_radius() {
    // A sphere of radius r at the origin, shot from (-2r, 0, 0) along +x,
    // is hit at exactly t == r.
    for r in [1i64, 2, 3, 10] {
        let sphere = Sphere::new(Vector3::zero(), r * SCALE);
        let ray = RayBuilder {
            origin: v(-2 * r, 0, 0),
            direction: Vector3::new(SCALE, 0, 0),
        }
        .build();
        let rec = sphere
            .hit(&ray, 66, 1000 * SCALE, &Vector3::zero())
            .expect("head-on ray must hit");
        assert_eq!(rec.t, r * SCALE);
        // The outward normal at the entry point faces back along -x.
        assert_eq!(rec.normal, Vector3::new(-SCALE, 0, 0));
    }
}

#[test]
fn sphere_tangent_ray_misses() {
    // Tangency counts as a miss: a ray grazing the sphere at distance
    // exactly r has a zero discriminant.
    let sphere = Sphere::new(Vector3::zero(), SCALE);
    let ray = RayBuilder {
        origin: v(-2, 1, 0),
        direction: Vector3::new(SCALE, 0, 0),
    }
    .build();
    assert!(sphere.hit(&ray, 66, 1000 * SCALE, &Vector3::zero()).is_none());
}

#[test]
fn sphere_behind_ray_misses() {
    let sphere = Sphere::new(v(0, 0, 4), SCALE);
    let ray = RayBuilder {
        origin: Vector3::zero(),
        direction: Vector3::new(0, 0, -SCALE),
    }
    .build();
    assert!(sphere.hit(&ray, 66, 1000 * SCALE, &Vector3::zero()).is_none());
}

fn unit_triangle() -> Triangle {
    Triangle::new(Vector3::zero(), v(1, 0, 0), v(0, 1, 0))
}

fn shoot_down_at(t: &Triangle, x: i64, y: i64) -> Option<raytrace::shapes::HitRecord> {
    let ray = RayBuilder {
        origin: Vector3::new(x, y, 2 * SCALE),
        direction: Vector3::new(0, 0, -SCALE),
    }
    .build();
    t.hit(&ray, 66, 1000 * SCALE, &Vector3::zero())
}

#[test]
fn triangle_interior_hit() {
    let t = unit_triangle();
    let rec = shoot_down_at(&t, SCALE / 4, SCALE / 4).expect("interior point must hit");
    assert_eq!(rec.t, 2 * SCALE);
    assert_eq!(rec.normal, Vector3::new(0, 0, SCALE));
}

#[test]
fn triangle_boundary_is_excluded() {
    // Points with beta or gamma exactly 0 or 1, or on the diagonal edge
    // (beta + gamma exactly 1), are misses: edges and vertices are excluded.
    let t = unit_triangle();
    // Vertices.
    assert!(shoot_down_at(&t, 0, 0).is_none());
    assert!(shoot_down_at(&t, SCALE, 0).is_none());
    assert!(shoot_down_at(&t, 0, SCALE).is_none());
    // Edge beta == 0 (the y-axis side) and gamma == 0 (the x-axis side).
    assert!(shoot_down_at(&t, 0, SCALE / 2).is_none());
    assert!(shoot_down_at(&t, SCALE / 2, 0).is_none());
    // Diagonal edge: beta + gamma == 1.
    assert!(shoot_down_at(&t, SCALE / 2, SCALE / 2).is_none());
}

#[test]
fn triangle_translated_hit() {
    let t = unit_triangle();
    let ray = RayBuilder {
        origin: Vector3::new(SCALE / 4 + 3 * SCALE, SCALE / 4, 2 * SCALE),
        direction: Vector3::new(0, 0, -SCALE),
    }
    .build();
    let rec = t
        .hit(&ray, 66, 1000 * SCALE, &v(3, 0, 0))
        .expect("translated triangle must be hit by translated ray");
    assert_eq!(rec.t, 2 * SCALE);
}
