//! Sample-point generation in the unit square.
//!
//! All randomness comes from a caller-supplied `StdRng` through two trusted
//! draws (`next_fraction`, `next_below`); everything built on top of them is
//! verified for every value those draws may return.  `jitter` places one
//! point in each cell of a `w x w` grid (`w = floor(sqrt(n))`); `nrooks`
//! places one x and one y coordinate in each of `n` bands and shuffles the
//! two coordinate sequences independently, so paired coordinates are
//! decorrelated before they are zipped back into points.
use crate::fx::{isqrt, sqrt_floor};
use crate::vectors::Vector2;
use vstd::arithmetic::div_mod::lemma_fundamental_div_mod_converse;
use vstd::prelude::*;
use vstd::seq_lib::group_to_multiset_ensures;

verus! {

#[verifier::external_type_specification]
#[verifier::external_body]
pub struct ExStdRng(rand::rngs::StdRng);

/// Relies on rand's `Rng::gen::<u16>`: some 16-bit value, so the widened
/// result is below 2^16 (one fixed-point unit).
#[verifier::external_body]
pub(crate) fn next_fraction(rng: &mut rand::rngs::StdRng) -> (r: i64)
    ensures
        0 <= r < 65536,
{
    rand::Rng::gen::<u16>(rng) as i64
}

/// Relies on rand's `Rng::gen_range` over `0..bound`: some value below
/// `bound` (it panics only on an empty range, which the precondition
/// excludes).
#[verifier::external_body]
fn next_below(rng: &mut rand::rngs::StdRng, bound: usize) -> (r: usize)
    requires
        bound > 0,
    ensures
        r < bound,
{
    rand::Rng::gen_range(rng, 0..bound)
}

/// A point whose coordinates lie in `[0, 1)`, fixed point.
pub open spec fn in_unit_square(p: Vector2) -> bool {
    &&& 0 <= p.x < 65536
    &&& 0 <= p.y < 65536
}

/// Whether `v` lies in the `b`-th of `n` equal bands of the unit interval:
/// `v == (b + d) / n` for some fraction `d`.
pub open spec fn in_band(v: int, b: int, n: int) -> bool {
    exists|d: int| 0 <= d < 65536 && v == #[trigger] ((b * 65536 + d) / n)
}

/// Whether some point of `s` has its x coordinate in band `b` of `n`.
pub open spec fn band_covered_x(s: Seq<Vector2>, b: int, n: int) -> bool {
    exists|j: int| 0 <= j < s.len() && in_band((#[trigger] s[j]).x as int, b, n)
}

/// Whether some point of `s` has its y coordinate in band `b` of `n`.
pub open spec fn band_covered_y(s: Seq<Vector2>, b: int, n: int) -> bool {
    exists|j: int| 0 <= j < s.len() && in_band((#[trigger] s[j]).y as int, b, n)
}

/// `samples` uniformly random points in the unit square.
pub fn random(rng: &mut rand::rngs::StdRng, samples: u32) -> (result: Vec<Vector2>)
    ensures
        result@.len() == samples,
        forall|k: int| 0 <= k < result@.len() ==> in_unit_square(#[trigger] result@[k]),
{
    let mut result: Vec<Vector2> = Vec::new();
    let mut i: u32 = 0;
    while i < samples
        invariant
            i <= samples,
            result@.len() == i,
            forall|k: int| 0 <= k < result@.len() ==> in_unit_square(#[trigger] result@[k]),
        decreases samples - i,
    {
        let x = next_fraction(rng);
        let y = next_fraction(rng);
        result.push(Vector2 { x, y });
        i = i + 1;
    }
    result
}

/// One uniformly random point in each cell of a `w x w` partition of the
/// unit square, where `w` is the floor square root of the requested sample
/// count; the point at index `k` lies in the cell in column `k / w`, row
/// `k % w`.
pub fn jitter(rng: &mut rand::rngs::StdRng, result: &mut Vec<Vector2>, samples: u32)
    ensures
        final (result)@.len() == sqrt_floor(samples as nat) * sqrt_floor(samples as nat),
        forall|k: int|
            0 <= k < final (result)@.len() ==> in_unit_square(#[trigger] final (result)@[k]),
        forall|k: int|
            0 <= k < final (result)@.len() ==> {
                let w = sqrt_floor(samples as nat) as int;
                in_band((#[trigger] final (result)@[k]).x as int, k / w, w) && in_band(
                    final (result)@[k].y as int,
                    k % w,
                    w,
                )
            },
{
    result.clear();
    proof {
        crate::fx::lemma_sqrt_floor(samples as nat);
        assert(sqrt_floor(samples as nat) < 0x10000int) by (nonlinear_arith)
            requires
                sqrt_floor(samples as nat) * sqrt_floor(samples as nat) <= samples,
                samples < 0x100000000,
        ;
    }
    let width: u32 = isqrt(samples as u128) as u32;
    let mut x: u32 = 0;
    while x < width
        invariant
            x <= width,
            width == sqrt_floor(samples as nat),
            width <= 65536,
            result@.len() == x * width,
            forall|k: int| 0 <= k < result@.len() ==> in_unit_square(#[trigger] result@[k]),
            forall|k: int|
                0 <= k < result@.len() ==> in_band(
                    (#[trigger] result@[k]).x as int,
                    k / (width as int),
                    width as int,
                ) && in_band(result@[k].y as int, k % (width as int), width as int),
        decreases width - x,
    {
        let mut y: u32 = 0;
        proof {
            crate::fx::lemma_mul_bound(x as int, width as int, 65536, 65536);
            crate::fx::lemma_mul_bound(x as int + 1, width as int, 65536, 65536);
            assert((x as int + 1) * width as int == x as int * width as int + width as int)
                by (nonlinear_arith);
        }
        while y < width
            invariant
                x < width,
                y <= width,
                width == sqrt_floor(samples as nat),
                width <= 65536,
                result@.len() == x * width + y,
                x as int * width as int + width <= 0x100000000,
                forall|k: int| 0 <= k < result@.len() ==> in_unit_square(#[trigger] result@[k]),
                forall|k: int|
                    0 <= k < result@.len() ==> in_band(
                        (#[trigger] result@[k]).x as int,
                        k / (width as int),
                        width as int,
                    ) && in_band(result@[k].y as int, k % (width as int), width as int),
            decreases width - y,
        {
            let dx = next_fraction(rng);
            let dy = next_fraction(rng);
            let px: i64 = ((x as i64) * 65536 + dx) / (width as i64);
            let py: i64 = ((y as i64) * 65536 + dy) / (width as i64);
            proof {
                assert(px < 65536 && py < 65536) by (nonlinear_arith)
                    requires
                        width >= 1,
                        0 <= dx < 65536,
                        0 <= dy < 65536,
                        0 <= x < width,
                        0 <= y < width,
                        px == (x as int * 65536 + dx) / (width as int),
                        py == (y as int * 65536 + dy) / (width as int),
                ;
                assert(px >= 0 && py >= 0) by (nonlinear_arith)
                    requires
                        width >= 1,
                        0 <= dx,
                        0 <= dy,
                        0 <= x,
                        0 <= y,
                        px == (x as int * 65536 + dx) / (width as int),
                        py == (y as int * 65536 + dy) / (width as int),
                ;
                lemma_fundamental_div_mod_converse(
                    x as int * width as int + y,
                    width as int,
                    x as int,
                    y as int,
                );
                assert(in_band(px as int, x as int, width as int));
                assert(in_band(py as int, y as int, width as int));
            }
            result.push(Vector2 { x: px, y: py });
            y = y + 1;
        }
        proof {
            assert((x as int + 1) * width as int == x as int * width as int + width as int)
                by (nonlinear_arith);
        }
        x = x + 1;
    }
}

/// Shuffle a scalar sequence: repeatedly draw a random remaining element.
/// The result holds exactly the elements the input held.
fn shuffle_scalars(rng: &mut rand::rngs::StdRng, v: &mut Vec<i64>)
    ensures
        final (v)@.len() == old(v)@.len(),
        final (v)@.to_multiset() == old(v)@.to_multiset(),
{
    broadcast use group_to_multiset_ensures;

    broadcast use vstd::multiset::group_multiset_axioms;

    let mut out: Vec<i64> = Vec::new();
    let ghost pre = v@;
    while v.len() > 0
        invariant
            out@.len() + v@.len() == pre.len(),
            out@.to_multiset().add(v@.to_multiset()) =~= pre.to_multiset(),
        decreases v@.len(),
    {
        let ghost vb = v@;
        let ghost outb = out@;
        let k = next_below(rng, v.len());
        let p = v.remove(k);
        proof {
            vb.to_multiset_ensures();
            outb.to_multiset_ensures();
            assert(v@ == vb.remove(k as int));
            assert(vb[k as int] == p);
            assert(vb.contains(p));
            assert(vb.to_multiset().count(p) > 0);
            assert(vb.remove(k as int).to_multiset() =~= vb.to_multiset().remove(p));
        }
        out.push(p);
        proof {
            assert(out@ == outb.push(p));
            assert(outb.push(p).to_multiset() =~= outb.to_multiset().insert(p));
            assert(out@.to_multiset().add(v@.to_multiset()) =~= pre.to_multiset());
        }
    }
    *v = out;
}

/// `samples` points with one x coordinate and one y coordinate in each of
/// `samples` equal bands of the unit interval (the Latin-hypercube pattern),
/// the two coordinate sequences shuffled independently of each other.
pub fn nrooks(rng: &mut rand::rngs::StdRng, result: &mut Vec<Vector2>, samples: u32)
    ensures
        final (result)@.len() == samples,
        forall|k: int|
            0 <= k < final (result)@.len() ==> in_unit_square(#[trigger] final (result)@[k]),
        forall|b: int|
            0 <= b < samples ==> #[trigger] band_covered_x(final (result)@, b, samples as int),
        forall|b: int|
            0 <= b < samples ==> #[trigger] band_covered_y(final (result)@, b, samples as int),
{
    broadcast use group_to_multiset_ensures;

    result.clear();
    let mut xs: Vec<i64> = Vec::new();
    let mut ys: Vec<i64> = Vec::new();
    let mut i: u32 = 0;
    while i < samples
        invariant
            i <= samples,
            xs@.len() == i,
            ys@.len() == i,
            forall|k: int|
                0 <= k < i ==> 0 <= #[trigger] xs@[k] < 65536 && in_band(
                    xs@[k] as int,
                    k,
                    samples as int,
                ),
            forall|k: int|
                0 <= k < i ==> 0 <= #[trigger] ys@[k] < 65536 && in_band(
                    ys@[k] as int,
                    k,
                    samples as int,
                ),
        decreases samples - i,
    {
        let rx = next_fraction(rng);
        let ry = next_fraction(rng);
        let px: i64 = ((i as i64) * 65536 + rx) / (samples as i64);
        let py: i64 = ((i as i64) * 65536 + ry) / (samples as i64);
        proof {
            assert(0 <= px < 65536 && 0 <= py < 65536) by (nonlinear_arith)
                requires
                    samples >= 1,
                    0 <= rx < 65536,
                    0 <= ry < 65536,
                    0 <= i < samples,
                    px == (i as int * 65536 + rx) / (samples as int),
                    py == (i as int * 65536 + ry) / (samples as int),
            ;
            assert(in_band(px as int, i as int, samples as int));
            assert(in_band(py as int, i as int, samples as int));
        }
        xs.push(px);
        ys.push(py);
        i = i + 1;
    }
    let ghost pre_xs = xs@;
    let ghost pre_ys = ys@;
    shuffle_scalars(rng, &mut xs);
    shuffle_scalars(rng, &mut ys);
    proof {
        xs@.to_multiset_ensures();
        ys@.to_multiset_ensures();
        pre_xs.to_multiset_ensures();
        pre_ys.to_multiset_ensures();
        assert forall|k: int| 0 <= k < xs@.len() implies 0 <= #[trigger] xs@[k] < 65536 by {
            assert(xs@.contains(xs@[k]));
            assert(xs@.to_multiset().count(xs@[k]) > 0);
            assert(pre_xs.contains(xs@[k]));
        }
        assert forall|k: int| 0 <= k < ys@.len() implies 0 <= #[trigger] ys@[k] < 65536 by {
            assert(ys@.contains(ys@[k]));
            assert(ys@.to_multiset().count(ys@[k]) > 0);
            assert(pre_ys.contains(ys@[k]));
        }
    }
    let mut out: Vec<Vector2> = Vec::new();
    let mut j: usize = 0;
    while j < xs.len()
        invariant
            xs@.len() == samples,
            ys@.len() == samples,
            j <= samples,
            out@.len() == j,
            forall|k: int| 0 <= k < samples ==> 0 <= #[trigger] xs@[k] < 65536,
            forall|k: int| 0 <= k < samples ==> 0 <= #[trigger] ys@[k] < 65536,
            forall|k: int| 0 <= k < j ==> #[trigger] out@[k] == (Vector2 {
                x: xs@[k],
                y: ys@[k],
            }),
        decreases xs@.len() - j,
    {
        out.push(Vector2 { x: xs[j], y: ys[j] });
        j = j + 1;
    }
    proof {
        xs@.to_multiset_ensures();
        ys@.to_multiset_ensures();
        pre_xs.to_multiset_ensures();
        pre_ys.to_multiset_ensures();
        assert forall|b: int|
            0 <= b < samples implies #[trigger] band_covered_x(out@, b, samples as int) by {
            assert(pre_xs.contains(pre_xs[b]));
            assert(pre_xs.to_multiset().count(pre_xs[b]) > 0);
            assert(xs@.contains(pre_xs[b]));
            let jx = choose|jx: int| 0 <= jx < xs@.len() && xs@[jx] == pre_xs[b];
            assert(out@[jx].x == pre_xs[b]);
            assert(in_band(out@[jx].x as int, b, samples as int));
        }
        assert forall|b: int|
            0 <= b < samples implies #[trigger] band_covered_y(out@, b, samples as int) by {
            assert(pre_ys.contains(pre_ys[b]));
            assert(pre_ys.to_multiset().count(pre_ys[b]) > 0);
            assert(ys@.contains(pre_ys[b]));
            let jy = choose|jy: int| 0 <= jy < ys@.len() && ys@[jy] == pre_ys[b];
            assert(out@[jy].y == pre_ys[b]);
            assert(in_band(out@[jy].y as int, b, samples as int));
        }
    }
    *result = out;
    proof {
        assert forall|b: int|
            0 <= b < samples implies #[trigger] band_covered_x(result@, b, samples as int) by {
            assert(band_covered_x(out@, b, samples as int));
            assert(result@ == out@);
        }
        assert forall|b: int|
            0 <= b < samples implies #[trigger] band_covered_y(result@, b, samples as int) by {
            assert(band_covered_y(out@, b, samples as int));
            assert(result@ == out@);
        }
    }
}

/// Recenter unit-square samples around the origin: the box-filter offset of
/// half a unit is taken off both coordinates.
pub fn box_filter(samples: &mut Vec<Vector2>)
    requires
        forall|k: int| 0 <= k < old(samples)@.len() ==> in_unit_square(#[trigger] old(samples)@[k]),
    ensures
        final (samples)@.len() == old(samples)@.len(),
        forall|k: int|
            0 <= k < final (samples)@.len() ==> (#[trigger] final (samples)@[k]) == (Vector2 {
                x: (old(samples)@[k].x - 32768) as i64,
                y: (old(samples)@[k].y - 32768) as i64,
            }),
{
    let mut i: usize = 0;
    while i < samples.len()
        invariant
            i <= samples@.len(),
            samples@.len() == old(samples)@.len(),
            forall|k: int|
                0 <= k < old(samples)@.len() ==> in_unit_square(#[trigger] old(samples)@[k]),
            forall|k: int|
                0 <= k < i ==> (#[trigger] samples@[k]) == (Vector2 {
                    x: (old(samples)@[k].x - 32768) as i64,
                    y: (old(samples)@[k].y - 32768) as i64,
                }),
            forall|k: int| i <= k < samples@.len() ==> #[trigger] samples@[k] == old(samples)@[k],
        decreases samples@.len() - i,
    {
        let p = samples[i];
        samples[i] = Vector2 { x: p.x - 32768, y: p.y - 32768 };
        i = i + 1;
    }
}

} // verus!
