//! End-to-end rendering and color conversion.
use rand::SeedableRng;
use raytrace::camera::{Camera, CameraBuilder, ThinLens};
use raytrace::fx::SCALE;
use raytrace::render::{nearest_hit, render, RenderConfig};
use raytrace::rgb::Rgb;
use raytrace::shapes::sphere::Sphere;
use raytrace::shapes::{pure_color_shape, RayBuilder, Shape, TexedShape};
use raytrace::vectors::Vector3;

fn rng(seed: u64) -> rand::rngs::StdRng {
    rand::rngs::StdRng::seed_from_u64(seed)
}

/// Fixed-point value of a small decimal, rounded up to the first raw step
/// not below it (so 0.2 maps to at least 51/255 of full intensity, as the
/// nearest 32-bit float does).
fn fx_of_tenths(tenths: i64) -> i64 {
    (tenths * SCALE + 9) / 10
}

fn pinhole_toward(target: Vector3) -> Camera {
    CameraBuilder {
        lens: ThinLens::new(0, Vector3::zero(), SCALE / 2),
        at: Vector3::zero(),
        target,
        up: Vector3::new(0, SCALE, 0),
        aspect_ratio: SCALE,
        half_width: 3277,
    }
    .build()
    .expect("camera must build")
}

fn single_sphere_scene() -> Vec<TexedShape> {
    let color = Rgb::new(fx_of_tenths(2), fx_of_tenths(2), fx_of_tenths(8));
    let sphere = Sphere::new(Vector3::new(0, 0, -SCALE), fx_of_tenths(2));
    vec![pure_color_shape(color, Shape::Sphere(sphere))]
}

fn config() -> RenderConfig {
    RenderConfig {
        width: 1,
        height: 1,
        samples: 4,
        tmin: 66,
        tmax: 1000 * SCALE,
        subject_distance: SCALE,
    }
}

#[test]
fn one_pixel_sphere_color() {
    // A pinhole camera aimed straight at a pure-color sphere returns the
    // sphere's color truncated to bytes: (0.2, 0.2, 0.8) -> (51, 51, 204).
    let scene = single_sphere_scene();
    let camera = pinhole_toward(Vector3::new(0, 0, -SCALE));
    let mut r = rng(1);
    let buf = render(&scene, &camera, &config(), &mut r);
    assert_eq!(buf, vec![51, 51, 204]);
}

#[test]
fn one_pixel_empty_view_is_black() {
    // The same scene viewed from a camera aimed the other way is black.
    let scene = single_sphere_scene();
    let camera = pinhole_toward(Vector3::new(0, 0, SCALE));
    let mut r = rng(1);
    let buf = render(&scene, &camera, &config(), &mut r);
    assert_eq!(buf, vec![0, 0, 0]);
}

#[test]
fn buffer_has_three_bytes_per_pixel() {
    let scene = single_sphere_scene();
    let camera = pinhole_toward(Vector3::new(0, 0, -SCALE));
    let mut r = rng(3);
    let cfg = RenderConfig {
        width: 4,
        height: 3,
        samples: 1,
        tmin: 66,
        tmax: 1000 * SCALE,
        subject_distance: SCALE,
    };
    let buf = render(&scene, &camera, &cfg, &mut r);
    assert_eq!(buf.len(), 3 * 4 * 3);
}

#[test]
fn nearest_of_two_spheres_wins() {
    let near = pure_color_shape(
        Rgb::white(),
        Shape::Sphere(Sphere::new(Vector3::new(0, 0, -2 * SCALE), SCALE / 4)),
    );
    let far = pure_color_shape(
        Rgb::black(),
        Shape::Sphere(Sphere::new(Vector3::new(0, 0, -6 * SCALE), SCALE / 4)),
    );
    let scene = vec![far, near];
    let ray = RayBuilder {
        origin: Vector3::zero(),
        direction: Vector3::new(0, 0, -SCALE),
    }
    .build();
    let (i, rec) = nearest_hit(&scene, &ray, 66, 1000 * SCALE, 0).expect("must hit");
    assert_eq!(i, 1);
    assert_eq!(rec.t, 2 * SCALE - SCALE / 4);
}

#[test]
fn tie_keeps_earlier_shape() {
    // Two spheres at the same distance: the nearest-hit fold keeps the
    // shape with the smaller index.
    let a = pure_color_shape(
        Rgb::white(),
        Shape::Sphere(Sphere::new(Vector3::new(0, 0, -2 * SCALE), SCALE / 4)),
    );
    let b = pure_color_shape(
        Rgb::black(),
        Shape::Sphere(Sphere::new(Vector3::new(0, 0, -2 * SCALE), SCALE / 4)),
    );
    let scene = vec![a, b];
    let ray = RayBuilder {
        origin: Vector3::zero(),
        direction: Vector3::new(0, 0, -SCALE),
    }
    .build();
    let (i, _) = nearest_hit(&scene, &ray, 66, 1000 * SCALE, 0).expect("must hit");
    assert_eq!(i, 0);
}

#[test]
fn byte_conversion_clamps_and_truncates() {
    assert_eq!(
        Rgb::new(fx_of_tenths(2), fx_of_tenths(2), fx_of_tenths(8)).to_bytes(),
        (51, 51, 204)
    );
    assert_eq!(Rgb::new(-5, 0, SCALE).to_bytes(), (0, 0, 255));
    assert_eq!(Rgb::new(2 * SCALE, SCALE / 2, 1).to_bytes(), (255, 127, 0));
    assert_eq!(Rgb::from_bytes(255, 0, 51).to_bytes(), (255, 0, 50));
}
