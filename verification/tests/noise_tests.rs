//! Gradient noise: range on sampled points, purity, and the hashing core.
use raytrace::fx::SCALE;
use raytrace::noise::{constrain, fade, hash, noise};
use raytrace::vectors::Vector3;

#[test]
fn noise_range_on_sampled_points() {
    // Over a grid of sampled points the remapped value stays in [0, 1].
    let mut k: i64 = 0;
    while k < 200 {
        let p = Vector3::new(k * 41131, (k * 2617 - 700000) % 900001, k * k * 331);
        let v = noise(&p);
        assert!((0..=SCALE).contains(&v), "noise out of range: {v}");
        k += 1;
    }
}

#[test]
fn noise_is_pure() {
    // Equal inputs give identical outputs on repeated calls.
    let points = [
        Vector3::new(12345, 67890, -13579),
        Vector3::new(0, 0, 0),
        Vector3::new(-400000, 250000, 99999),
    ];
    for p in points {
        let a = noise(&p);
        let b = noise(&p);
        assert_eq!(a, b);
    }
}

#[test]
fn noise_zero_point_value() {
    // At a lattice point every in-cell offset is zero, so all eight corner
    // products vanish and the remapped value is exactly one half.
    assert_eq!(noise(&Vector3::new(0, 0, 0)), SCALE / 2);
}

#[test]
fn constrain_masks_to_table_index() {
    assert_eq!(constrain(0), 0);
    assert_eq!(constrain(255), 255);
    assert_eq!(constrain(256), 0);
    assert_eq!(constrain(511), 255);
    assert_eq!(constrain(u32::MAX), 255);
}

#[test]
fn hash_returns_table_entries() {
    // First table entries, and the wraparound of the mirrored table.
    assert_eq!(hash(0), 151);
    assert_eq!(hash(1), 160);
    assert_eq!(hash(256), 151);
    assert!(hash(12345) < 256);
}

#[test]
fn fade_endpoints_are_exact() {
    // 6t^5 - 15t^4 + 10t^3 is 0 at 0 and 1 at 1.
    assert_eq!(fade(0), 0);
    assert_eq!(fade(SCALE), SCALE);
    // Midpoint: the curve passes through one half.
    assert_eq!(fade(SCALE / 2), SCALE / 2);
    // Monotone spot checks.
    assert!(fade(SCALE / 4) < fade(SCALE / 2));
    assert!(fade(SCALE / 2) < fade(3 * SCALE / 4));
}
