//! Thin-lens refraction and camera construction.
use raytrace::camera::{CameraBuilder, ThinLens};
use raytrace::fx::SCALE;
use raytrace::shapes::RayBuilder;
use raytrace::vectors::{Vector2, Vector3};

#[test]
fn refract_tests() {
    let thin_lens = ThinLens::new(20 * SCALE, Vector3::zero(), 5 * SCALE);
    let ray = RayBuilder {
        origin: Vector3::new(0, 0, 2 * SCALE),
        direction: Vector3::new(-SCALE, 0, 0),
    }
    .build();
    let ray = thin_lens.refract(&ray, Vector3::zero(), 10 * SCALE);
    assert_eq!(ray.origin, Vector3::zero());
    assert_eq!(ray.direction, Vector3::new(0, 0, -SCALE));
}

#[test]
fn refract_tests_normal() {
    let thin_lens = ThinLens::new(20 * SCALE, Vector3::zero(), 5 * SCALE / 2);
    let ray = RayBuilder {
        origin: Vector3::new(5 * SCALE, 5 * SCALE, 0),
        direction: Vector3::new(-SCALE, 0, 0),
    }
    .build();
    let ray = thin_lens.refract(&ray, Vector3::new(0, 5 * SCALE, 0), 5 * SCALE);
    assert_eq!(ray.origin, Vector3::new(0, 5 * SCALE, 0));
    assert_eq!(
        ray.direction,
        Vector3::new(-5 * SCALE, -10 * SCALE, 0).unit()
    );
}

#[test]
fn refract() {
    let thin_lens = ThinLens {
        radius: 20 * SCALE,
        center: Vector3::zero(),
        focal_length: 5 * SCALE,
    };
    let ray = RayBuilder {
        origin: Vector3::new(0, 0, 2 * SCALE),
        direction: Vector3::new(-SCALE, 0, 0),
    }
    .build();
    let ray = thin_lens.refract(&ray, Vector3::zero(), 10 * SCALE);
    assert_eq!(ray.origin, Vector3::zero());
    assert_eq!(ray.direction, Vector3::new(0, 0, -SCALE));
}

#[test]
fn refract_normal() {
    let thin_lens = ThinLens {
        radius: 20 * SCALE,
        center: Vector3::zero(),
        focal_length: 5 * SCALE / 2,
    };
    let ray = RayBuilder {
        origin: Vector3::new(5 * SCALE, 5 * SCALE, 0),
        direction: Vector3::new(-SCALE, 0, 0),
    }
    .build();
    let _ray = thin_lens.refract(&ray, Vector3::new(0, 5 * SCALE, 0), 5 * SCALE);
}

fn pinhole_camera() -> raytrace::camera::Camera {
    CameraBuilder {
        lens: ThinLens::new(0, Vector3::zero(), SCALE / 2),
        at: Vector3::zero(),
        target: Vector3::new(0, 0, -SCALE),
        up: Vector3::new(0, SCALE, 0),
        aspect_ratio: SCALE,
        half_width: 3277,
    }
    .build()
    .expect("a straight-on camera builds")
}

#[test]
fn pinhole_rays_converge() {
    // With a zero lens radius, two different lens samples give the same ray
    // for the same pixel sample: the camera degenerates to a pinhole, so all
    // rays of a pixel pass one point and meet the focal plane together.
    let cam = pinhole_camera();
    let pixel = Vector2 { x: 1234, y: 4321 };
    let r1 = cam.gen_ray(&pixel, &Vector2 { x: 0, y: 0 }, SCALE);
    let r2 = cam.gen_ray(&pixel, &Vector2 { x: SCALE, y: SCALE / 3 }, SCALE);
    assert_eq!(r1.origin, r2.origin);
    assert_eq!(r1.direction, r2.direction);
}

#[test]
fn degenerate_camera_is_refused() {
    // target == eye
    let r = CameraBuilder {
        lens: ThinLens::new(0, Vector3::zero(), SCALE / 2),
        at: Vector3::zero(),
        target: Vector3::zero(),
        up: Vector3::new(0, SCALE, 0),
        aspect_ratio: SCALE,
        half_width: 3277,
    }
    .build();
    assert!(r.is_err());
    // up parallel to the view direction
    let r = CameraBuilder {
        lens: ThinLens::new(0, Vector3::zero(), SCALE / 2),
        at: Vector3::zero(),
        target: Vector3::new(0, 0, -SCALE),
        up: Vector3::new(0, 0, 2 * SCALE),
        aspect_ratio: SCALE,
        half_width: 3277,
    }
    .build();
    assert!(r.is_err());
    // zero up vector
    let r = CameraBuilder {
        lens: ThinLens::new(0, Vector3::zero(), SCALE / 2),
        at: Vector3::zero(),
        target: Vector3::new(0, 0, -SCALE),
        up: Vector3::zero(),
        aspect_ratio: SCALE,
        half_width: 3277,
    }
    .build();
    assert!(r.is_err());
    // up an exact multiple of the view direction: the truncated unit basis
    // would not collapse to zero here, so the exact wide-cross test must
    // catch it.
    let r = CameraBuilder {
        lens: ThinLens::new(0, Vector3::zero(), SCALE / 2),
        at: Vector3::zero(),
        target: Vector3::new(1, 2, 3),
        up: Vector3::new(2, 4, 6),
        aspect_ratio: SCALE,
        half_width: 3277,
    }
    .build();
    assert!(r.is_err());
    // and an exact negative multiple.
    let r = CameraBuilder {
        lens: ThinLens::new(0, Vector3::zero(), SCALE / 2),
        at: Vector3::zero(),
        target: Vector3::new(SCALE, 0, SCALE),
        up: Vector3::new(-3 * SCALE, 0, -3 * SCALE),
        aspect_ratio: SCALE,
        half_width: 3277,
    }
    .build();
    assert!(r.is_err());
}

#[test]
fn camera_basis_is_derived() {
    let cam = pinhole_camera();
    // Looking down -z with +y up: u is +x, v is +y, n is -z.
    assert_eq!(cam.n, Vector3::new(0, 0, -SCALE));
    assert_eq!(cam.u, Vector3::new(SCALE, 0, 0));
    assert_eq!(cam.v, Vector3::new(0, SCALE, 0));
    // The sensor sits behind the lens: at - n * focal_length.
    assert_eq!(cam.left_bottom, Vector3::new(-3277, -3277, SCALE / 2));
}
