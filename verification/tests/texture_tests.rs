//! Texture evaluation: constant colors, bilinear image lookup, noise blend.
use raytrace::fx::SCALE;
use raytrace::rgb::Rgb;
use raytrace::texture::{ImageTexture, NoiseTexture, PureColorTexture, Texture};
use raytrace::vectors::{Vector2, Vector3};

#[test]
fn pure_color_is_constant() {
    let t = Texture::Pure(PureColorTexture { color: Rgb::new(1000, 2000, 3000) });
    let a = t.get_value(&Vector3::zero(), &Vector2 { x: 0, y: 0 });
    let b = t.get_value(&Vector3::new(5, 6, 7), &Vector2 { x: SCALE, y: SCALE / 2 });
    assert_eq!(a, Rgb::new(1000, 2000, 3000));
    assert_eq!(a, b);
}

fn two_by_two() -> ImageTexture {
    // Row-major: (0,0) black, (1,0) white, (0,1) white, (1,1) black.
    ImageTexture::new(
        2,
        2,
        vec![Rgb::black(), Rgb::white(), Rgb::white(), Rgb::black()],
    )
    .expect("grid matches extents")
}

#[test]
fn image_texture_rejects_bad_extents() {
    assert!(ImageTexture::new(0, 2, vec![]).is_none());
    assert!(ImageTexture::new(2, 2, vec![Rgb::black(); 3]).is_none());
    assert!(ImageTexture::new(1, 1, vec![Rgb::new(2 * SCALE, 0, 0)]).is_none());
}

#[test]
fn image_lookup_at_texel_centers() {
    let img = two_by_two();
    // uv (0, 0) addresses the first texel exactly.
    let c = img.get_value(&Vector2 { x: 0, y: 0 });
    assert_eq!(c, Rgb::black());
    // uv (0.5, 0) lands on the second texel with no fraction left.
    let c = img.get_value(&Vector2 { x: SCALE / 2, y: 0 });
    assert_eq!(c, Rgb::white());
}

#[test]
fn image_lookup_blends_between_texels() {
    let img = two_by_two();
    // A quarter of the way from the first texel toward the second:
    // u = 0.25 scaled by width 2 gives cell 0 with fraction one half.
    let c = img.get_value(&Vector2 { x: SCALE / 4, y: 0 });
    assert_eq!(c, Rgb::new(SCALE / 2, SCALE / 2, SCALE / 2));
}

#[test]
fn image_lookup_clamps_out_of_range() {
    let img = two_by_two();
    let below = img.get_value(&Vector2 { x: -5 * SCALE, y: -SCALE });
    let above = img.get_value(&Vector2 { x: 7 * SCALE, y: 9 * SCALE });
    assert_eq!(below, Rgb::black());
    assert_eq!(above, Rgb::black());
}

#[test]
fn noise_texture_blends_endpoints() {
    // At a lattice point the noise value is exactly one half, so the blend
    // sits midway between the two colors.
    let t = Texture::Noise(NoiseTexture {
        start: Rgb::black(),
        end: Rgb::white(),
        scale: SCALE,
    });
    let c = t.get_value(&Vector3::zero(), &Vector2 { x: 0, y: 0 });
    assert_eq!(c, Rgb::new(SCALE / 2, SCALE / 2, SCALE / 2));
}
