//! Bounding-box slab tests.
use raytrace::bvh::BBox;
use raytrace::fx::SCALE;
use raytrace::shapes::RayBuilder;
use raytrace::vectors::Vector3;

fn v(x: i64, y: i64, z: i64) -> Vector3 {
    Vector3::new(x * SCALE, y * SCALE, z * SCALE)
}

#[test]
fn intersect_2d() {
    let bbox = BBox {
        min: v(1, 1, 0),
        max: v(3, 3, 0),
    };
    let ray = RayBuilder {
        origin: v(0, 0, 0),
        direction: v(1, 1, 0),
    }
    .build();
    assert!(bbox.ray_intersect(&ray, 6554, 10 * SCALE));
}

#[test]
fn miss_on_one_axis() {
    // The ray crosses the box's x slab but runs parallel to and outside the
    // y slab: no common parameter exists, so the test reports a miss.
    let bbox = BBox {
        min: v(1, 1, -1),
        max: v(3, 3, 1),
    };
    let ray = RayBuilder {
        origin: v(0, 5, 0),
        direction: v(1, 0, 0),
    }
    .build();
    assert!(!bbox.ray_intersect(&ray, 66, 10 * SCALE));
}

#[test]
fn hit_through_volume() {
    let bbox = BBox {
        min: v(-1, -1, -3),
        max: v(1, 1, -2),
    };
    let ray = RayBuilder {
        origin: v(0, 0, 0),
        direction: v(0, 0, -1),
    }
    .build();
    assert!(bbox.ray_intersect(&ray, 66, 10 * SCALE));
}

#[test]
fn behind_ray_misses() {
    let bbox = BBox {
        min: v(-1, -1, 2),
        max: v(1, 1, 3),
    };
    let ray = RayBuilder {
        origin: v(0, 0, 0),
        direction: v(0, 0, -1),
    }
    .build();
    assert!(!bbox.ray_intersect(&ray, 66, 10 * SCALE));
}

#[test]
fn box_past_tmax_misses() {
    let bbox = BBox {
        min: v(-1, -1, -30),
        max: v(1, 1, -20),
    };
    let ray = RayBuilder {
        origin: v(0, 0, 0),
        direction: v(0, 0, -1),
    }
    .build();
    assert!(!bbox.ray_intersect(&ray, 66, 10 * SCALE));
}
