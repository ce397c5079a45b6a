//! Sampling strategies, driven by a seeded generator.
use rand::SeedableRng;
use raytrace::fx::SCALE;
use raytrace::sample::{box_filter, jitter, nrooks, random};
use raytrace::vectors::Vector2;

fn rng(seed: u64) -> rand::rngs::StdRng {
    rand::rngs::StdRng::seed_from_u64(seed)
}

#[test]
fn random_points_fill_unit_square() {
    let mut r = rng(7);
    let pts = random(&mut r, 100);
    assert_eq!(pts.len(), 100);
    for p in &pts {
        assert!((0..SCALE).contains(&p.x));
        assert!((0..SCALE).contains(&p.y));
    }
}

#[test]
fn jitter_strata() {
    // 16 samples make a 4x4 grid: one point per cell, in cell order.
    let mut r = rng(11);
    let mut pts: Vec<Vector2> = Vec::new();
    jitter(&mut r, &mut pts, 16);
    assert_eq!(pts.len(), 16);
    for (k, p) in pts.iter().enumerate() {
        let cx = (k / 4) as i64;
        let cy = (k % 4) as i64;
        assert!(cx * SCALE / 4 <= p.x && p.x < (cx + 1) * SCALE / 4 + 1);
        assert!(cy * SCALE / 4 <= p.y && p.y < (cy + 1) * SCALE / 4 + 1);
    }
}

#[test]
fn jitter_truncates_to_square_count() {
    // floor(sqrt(10)) == 3, so ten requested samples give nine points.
    let mut r = rng(13);
    let mut pts: Vec<Vector2> = Vec::new();
    jitter(&mut r, &mut pts, 10);
    assert_eq!(pts.len(), 9);
}

#[test]
fn nrooks_covers_every_band() {
    let n: usize = 8;
    let mut r = rng(17);
    let mut pts: Vec<Vector2> = Vec::new();
    nrooks(&mut r, &mut pts, n as u32);
    assert_eq!(pts.len(), n);
    let band = |v: i64| (v as usize * n) / SCALE as usize;
    let mut xs = vec![false; n];
    let mut ys = vec![false; n];
    for p in &pts {
        assert!((0..SCALE).contains(&p.x));
        assert!((0..SCALE).contains(&p.y));
        xs[band(p.x)] = true;
        ys[band(p.y)] = true;
    }
    // One x and one y coordinate in every band: the Latin-hypercube pattern.
    assert!(xs.iter().all(|&b| b));
    assert!(ys.iter().all(|&b| b));
}

#[test]
fn same_seed_same_samples() {
    // Two generators seeded alike drive the samplers identically, so
    // deterministic per-pixel seeding gives reproducible output.
    let mut r1 = rng(99);
    let mut r2 = rng(99);
    let mut a: Vec<Vector2> = Vec::new();
    let mut b: Vec<Vector2> = Vec::new();
    nrooks(&mut r1, &mut a, 16);
    nrooks(&mut r2, &mut b, 16);
    assert_eq!(a, b);
}

#[test]
fn box_filter_recenters() {
    let mut pts = vec![
        Vector2 { x: 0, y: SCALE - 1 },
        Vector2 {
            x: SCALE / 2,
            y: SCALE / 4,
        },
    ];
    box_filter(&mut pts);
    assert_eq!(pts[0], Vector2 { x: -SCALE / 2, y: SCALE / 2 - 1 });
    assert_eq!(
        pts[1],
        Vector2 {
            x: 0,
            y: -SCALE / 4,
        }
    );
}
