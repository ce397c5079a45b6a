//! Axis-aligned bounding boxes and the slab overlap predicate.
//!
//! Each axis with a non-zero direction component projects the box onto a
//! parametric interval `[near, far]`; the near and far planes are selected by
//! the direction's sign, and the interval endpoints are kept as exact
//! fractions (numerator and positive denominator), so no reciprocal
//! directions and no division are needed.  An axis the ray runs parallel to
//! constrains nothing when the origin lies inside that slab (bounds
//! included) and rejects the box otherwise.  The box is hit when the largest
//! near value is below every far value and lies within `[tmin, tmax)`.
use crate::fx::lemma_mul_bound;
use crate::shapes::Ray;
use crate::vectors::{in_range, Vector3, VMAX, WMAX};
use vstd::prelude::*;

verus! {

#[derive(Debug, Clone, Copy, PartialEq, Eq, Structural)]
pub struct BBox {
    pub min: Vector3,
    pub max: Vector3,
}

/// A box is well-formed when its corners are ordered on every axis.
pub open spec fn bbox_wf(bb: BBox) -> bool {
    &&& bb.min.x <= bb.max.x
    &&& bb.min.y <= bb.max.y
    &&& bb.min.z <= bb.max.z
}

/// Whether the exact fraction `n1 / d1` is below `n2 / d2`
/// (both denominators positive).
pub open spec fn frac_lt(n1: int, d1: int, n2: int, d2: int) -> bool {
    n1 * d2 < n2 * d1
}

/// Positive denominator of an axis interval: the direction magnitude.
pub open spec fn axis_den(d: int) -> int {
    if d >= 0 {
        d
    } else {
        -d
    }
}

/// Numerator of the axis entry parameter, over `axis_den(d) / SCALE`.
pub open spec fn axis_near_num(o: int, d: int, lo: int, hi: int) -> int {
    if d > 0 {
        (lo - o) * 65536
    } else {
        (o - hi) * 65536
    }
}

/// Numerator of the axis exit parameter, over `axis_den(d) / SCALE`.
pub open spec fn axis_far_num(o: int, d: int, lo: int, hi: int) -> int {
    if d > 0 {
        (hi - o) * 65536
    } else {
        (o - lo) * 65536
    }
}

/// The exact slab overlap predicate: the origin must lie inside the slab of
/// every axis the ray is parallel to; some near value must reach `tmin`; and
/// every near value must stay below `tmax` and below every far value.
pub open spec fn slab_hit(bb: BBox, ray: Ray, tmin: int, tmax: int) -> bool {
    let o = ray.origin;
    let d = ray.direction;
    let cx = d.x != 0;
    let cy = d.y != 0;
    let cz = d.z != 0;
    let ex = axis_den(d.x as int);
    let ey = axis_den(d.y as int);
    let ez = axis_den(d.z as int);
    let nx = axis_near_num(o.x as int, d.x as int, bb.min.x as int, bb.max.x as int);
    let ny = axis_near_num(o.y as int, d.y as int, bb.min.y as int, bb.max.y as int);
    let nz = axis_near_num(o.z as int, d.z as int, bb.min.z as int, bb.max.z as int);
    let fx = axis_far_num(o.x as int, d.x as int, bb.min.x as int, bb.max.x as int);
    let fy = axis_far_num(o.y as int, d.y as int, bb.min.y as int, bb.max.y as int);
    let fz = axis_far_num(o.z as int, d.z as int, bb.min.z as int, bb.max.z as int);
    &&& (!cx ==> bb.min.x <= o.x <= bb.max.x)
    &&& (!cy ==> bb.min.y <= o.y <= bb.max.y)
    &&& (!cz ==> bb.min.z <= o.z <= bb.max.z)
    &&& ((cx && tmin * ex <= nx) || (cy && tmin * ey <= ny) || (cz && tmin * ez <= nz))
    &&& (cx ==> nx < tmax * ex)
    &&& (cy ==> ny < tmax * ey)
    &&& (cz ==> nz < tmax * ez)
    &&& (cx ==> nx < fx)
    &&& (cy ==> ny < fy)
    &&& (cz ==> nz < fz)
    &&& (cx && cy ==> frac_lt(nx, ex, fy, ey) && frac_lt(ny, ey, fx, ex))
    &&& (cx && cz ==> frac_lt(nx, ex, fz, ez) && frac_lt(nz, ez, fx, ex))
    &&& (cy && cz ==> frac_lt(ny, ey, fz, ez) && frac_lt(nz, ez, fy, ey))
}

/// Whether the ray stands inside the box at the exact rational parameter
/// `tn / td` (`td > 0`): on every axis the ray runs along, the position has
/// passed the entry plane and not reached the exit plane; on every axis the
/// ray is parallel to, the origin lies inside the slab (bounds included).
pub open spec fn axis_contains(o: int, d: int, lo: int, hi: int, tn: int, td: int) -> bool {
    if d == 0 {
        lo <= o <= hi
    } else {
        axis_near_num(o, d, lo, hi) * td <= tn * axis_den(d) && tn * axis_den(d) < axis_far_num(
            o,
            d,
            lo,
            hi,
        ) * td
    }
}

/// Whether the ray stands inside the box on all three axes at `tn / td`.
pub open spec fn ray_in_box_at(bb: BBox, ray: Ray, tn: int, td: int) -> bool {
    let o = ray.origin;
    let d = ray.direction;
    &&& axis_contains(o.x as int, d.x as int, bb.min.x as int, bb.max.x as int, tn, td)
    &&& axis_contains(o.y as int, d.y as int, bb.min.y as int, bb.max.y as int, tn, td)
    &&& axis_contains(o.z as int, d.z as int, bb.min.z as int, bb.max.z as int, tn, td)
}

/// Whether some axis the ray runs along is entered no earlier than `tmin`
/// (a ray already past every entry plane before `tmin` — one starting inside
/// the box — is culled by the slab test even where it overlaps the box).
pub open spec fn entered_from_tmin(bb: BBox, ray: Ray, tmin: int) -> bool {
    let o = ray.origin;
    let d = ray.direction;
    let ex = axis_den(d.x as int);
    let ey = axis_den(d.y as int);
    let ez = axis_den(d.z as int);
    ||| (d.x != 0 && tmin * ex <= axis_near_num(o.x as int, d.x as int, bb.min.x as int, bb.max.x as int))
    ||| (d.y != 0 && tmin * ey <= axis_near_num(o.y as int, d.y as int, bb.min.y as int, bb.max.y as int))
    ||| (d.z != 0 && tmin * ez <= axis_near_num(o.z as int, d.z as int, bb.min.z as int, bb.max.z as int))
}

/// Transitivity of exact fraction comparison (positive denominators).
proof fn lemma_frac_trans(n1: int, d1: int, n2: int, d2: int, n3: int, d3: int)
    by (nonlinear_arith)
    requires
        d1 > 0,
        d2 > 0,
        d3 > 0,
        n1 * d2 <= n2 * d1,
        n2 * d3 <= n3 * d2,
    ensures
        n1 * d3 <= n3 * d1,
{
}

/// Strict transitivity of exact fraction comparison.
proof fn lemma_frac_trans_strict(n1: int, d1: int, n2: int, d2: int, n3: int, d3: int)
    by (nonlinear_arith)
    requires
        d1 > 0,
        d2 > 0,
        d3 > 0,
        n1 * d2 <= n2 * d1,
        n2 * d3 < n3 * d2,
    ensures
        n1 * d3 < n3 * d1,
{
}

/// A positive common factor can be introduced or cancelled in a strict
/// comparison.
proof fn lemma_cancel_strict(a: int, b: int, e: int)
    by (nonlinear_arith)
    requires
        e > 0,
    ensures
        a < b <==> a * e < b * e,
{
}

/// The slab test is exact: for a ray that enters some slab no earlier than
/// `tmin`, the test reports a hit exactly when there is a parameter in
/// `[tmin, tmax)` at which the ray stands inside the box on every axis
/// simultaneously.
pub proof fn lemma_slab_overlap_exact(bb: BBox, ray: Ray, tmin: int, tmax: int)
    requires
        bbox_wf(bb),
        entered_from_tmin(bb, ray, tmin),
    ensures
        slab_hit(bb, ray, tmin, tmax) <==> exists|tn: int, td: int|
            td > 0 && tmin * td <= tn && tn < tmax * td && #[trigger] ray_in_box_at(
                bb,
                ray,
                tn,
                td,
            ),
{
    let o = ray.origin;
    let d = ray.direction;
    let cx = d.x != 0;
    let cy = d.y != 0;
    let cz = d.z != 0;
    let ex = axis_den(d.x as int);
    let ey = axis_den(d.y as int);
    let ez = axis_den(d.z as int);
    let nx = axis_near_num(o.x as int, d.x as int, bb.min.x as int, bb.max.x as int);
    let ny = axis_near_num(o.y as int, d.y as int, bb.min.y as int, bb.max.y as int);
    let nz = axis_near_num(o.z as int, d.z as int, bb.min.z as int, bb.max.z as int);
    let fx = axis_far_num(o.x as int, d.x as int, bb.min.x as int, bb.max.x as int);
    let fy = axis_far_num(o.y as int, d.y as int, bb.min.y as int, bb.max.y as int);
    let fz = axis_far_num(o.z as int, d.z as int, bb.min.z as int, bb.max.z as int);
    if slab_hit(bb, ray, tmin, tmax) {
        // Witness: the largest entry fraction among the constrained axes.
        let (n1, e1) = if cx {
            (nx, ex)
        } else if cy {
            (ny, ey)
        } else {
            (nz, ez)
        };
        let (n2, e2) = if cy && ny * e1 > n1 * ey {
            (ny, ey)
        } else {
            (n1, e1)
        };
        let (tn, td) = if cz && nz * e2 > n2 * ez {
            (nz, ez)
        } else {
            (n2, e2)
        };
        // The witness dominates every constrained entry fraction.
        if cx {
            lemma_frac_trans(nx, ex, n1, e1, n2, e2);
            lemma_frac_trans(nx, ex, n2, e2, tn, td);
        }
        if cy {
            lemma_frac_trans(ny, ey, n2, e2, tn, td);
        }
        // tmin <= tn/td, from the axis that is entered no earlier than tmin.
        if cx && tmin * ex <= nx {
            lemma_frac_trans(tmin, 1, nx, ex, tn, td);
        } else if cy && tmin * ey <= ny {
            lemma_frac_trans(tmin, 1, ny, ey, tn, td);
        } else {
            lemma_frac_trans(tmin, 1, nz, ez, tn, td);
        }
        // tn/td < tmax, since the witness is one of the entry fractions.
        if (tn, td) == (nx, ex) {
            lemma_frac_trans_strict(tn, td, nx, ex, tmax, 1);
        } else if (tn, td) == (ny, ey) {
            lemma_frac_trans_strict(tn, td, ny, ey, tmax, 1);
        } else {
            lemma_frac_trans_strict(tn, td, nz, ez, tmax, 1);
        }
        // Below every exit fraction: pairwise strict comparisons of the test.
        if cx {
            if (tn, td) == (nx, ex) {
                lemma_cancel_strict(nx, fx, ex);
            } else if (tn, td) == (ny, ey) {
                lemma_frac_trans_strict(tn, td, ny, ey, fx, ex);
            } else {
                lemma_frac_trans_strict(tn, td, nz, ez, fx, ex);
            }
        }
        if cy {
            if (tn, td) == (ny, ey) {
                lemma_cancel_strict(ny, fy, ey);
            } else if (tn, td) == (nx, ex) {
                lemma_frac_trans_strict(tn, td, nx, ex, fy, ey);
            } else {
                lemma_frac_trans_strict(tn, td, nz, ez, fy, ey);
            }
        }
        if cz {
            if (tn, td) == (nz, ez) {
                lemma_cancel_strict(nz, fz, ez);
            } else if (tn, td) == (nx, ex) {
                lemma_frac_trans_strict(tn, td, nx, ex, fz, ez);
            } else {
                lemma_frac_trans_strict(tn, td, ny, ey, fz, ez);
            }
        }
        assert(ray_in_box_at(bb, ray, tn, td));
        assert(td > 0 && tmin * td <= tn && tn < tmax * td);
    }
    if exists|tn: int, td: int|
        td > 0 && tmin * td <= tn && tn < tmax * td && #[trigger] ray_in_box_at(bb, ray, tn, td) {
        let (tn, td) = choose|tn: int, td: int|
            td > 0 && tmin * td <= tn && tn < tmax * td && #[trigger] ray_in_box_at(
                bb,
                ray,
                tn,
                td,
            );
        if cx {
            lemma_frac_trans_strict(nx, ex, tn, td, tmax, 1);
            lemma_frac_trans_strict(nx, ex, tn, td, fx, ex);
            lemma_cancel_strict(nx, fx, ex);
            if cy {
                lemma_frac_trans_strict(nx, ex, tn, td, fy, ey);
                lemma_frac_trans_strict(ny, ey, tn, td, fx, ex);
            }
            if cz {
                lemma_frac_trans_strict(nx, ex, tn, td, fz, ez);
                lemma_frac_trans_strict(nz, ez, tn, td, fx, ex);
            }
        }
        if cy {
            lemma_frac_trans_strict(ny, ey, tn, td, tmax, 1);
            lemma_frac_trans_strict(ny, ey, tn, td, fy, ey);
            lemma_cancel_strict(ny, fy, ey);
            if cz {
                lemma_frac_trans_strict(ny, ey, tn, td, fz, ez);
                lemma_frac_trans_strict(nz, ez, tn, td, fy, ey);
            }
        }
        if cz {
            lemma_frac_trans_strict(nz, ez, tn, td, tmax, 1);
            lemma_frac_trans_strict(nz, ez, tn, td, fz, ez);
            lemma_cancel_strict(nz, fz, ez);
        }
        assert(slab_hit(bb, ray, tmin, tmax));
    }
}

/// Whether `n1 / d1 < n2 / d2`, by cross multiplication.
fn frac_lt_e(n1: i128, d1: i128, n2: i128, d2: i128) -> (r: bool)
    requires
        0 < d1 <= 0x100000000,
        0 < d2 <= 0x100000000,
        -0x400000000000000000000000 <= n1 <= 0x400000000000000000000000,
        -0x400000000000000000000000 <= n2 <= 0x400000000000000000000000,
    ensures
        r == frac_lt(n1 as int, d1 as int, n2 as int, d2 as int),
{
    proof {
        lemma_mul_bound(n1 as int, d2 as int, 0x400000000000000000000000, 0x100000000);
        lemma_mul_bound(n2 as int, d1 as int, 0x400000000000000000000000, 0x100000000);
    }
    n1 * d2 < n2 * d1
}

/// One axis's interval data: whether the axis constrains the ray, and the
/// near and far numerators over the denominator (positive where constrained).
fn axis_nums(o: i64, d: i64, lo: i64, hi: i64) -> (r: (bool, i128, i128, i128))
    requires
        -WMAX <= o <= WMAX,
        -WMAX <= d <= WMAX,
        -WMAX <= lo <= WMAX,
        -WMAX <= hi <= WMAX,
    ensures
        r.0 == (d != 0),
        r.1 == axis_near_num(o as int, d as int, lo as int, hi as int),
        r.2 == axis_far_num(o as int, d as int, lo as int, hi as int),
        r.3 == axis_den(d as int),
    {
    if d > 0 {
        ((true), (lo as i128 - o as i128) * 65536, (hi as i128 - o as i128) * 65536, d as i128)
    } else if d < 0 {
        ((true), (o as i128 - hi as i128) * 65536, (o as i128 - lo as i128) * 65536, -(d as i128))
    } else {
        ((false), (o as i128 - hi as i128) * 65536, (o as i128 - lo as i128) * 65536, 0)
    }
}

impl BBox {
    /// The slab overlap test of this box against `ray` within
    /// `[tmin, tmax)`.
    pub fn ray_intersect(&self, ray: &Ray, tmin: i64, tmax: i64) -> (r: bool)
        requires
            in_range(ray.origin, WMAX as int),
            in_range(ray.direction, WMAX as int),
            in_range(self.min, WMAX as int),
            in_range(self.max, WMAX as int),
            bbox_wf(*self),
            -VMAX <= tmin <= VMAX,
            -VMAX <= tmax <= VMAX,
        ensures
            r == slab_hit(*self, *ray, tmin as int, tmax as int),
    {
        let o = ray.origin;
        let d = ray.direction;
        let (cx, nx, fx, ex) = axis_nums(o.x, d.x, self.min.x, self.max.x);
        let (cy, ny, fy, ey) = axis_nums(o.y, d.y, self.min.y, self.max.y);
        let (cz, nz, fz, ez) = axis_nums(o.z, d.z, self.min.z, self.max.z);
        if !cx && !(self.min.x <= o.x && o.x <= self.max.x) {
            return false;
        }
        if !cy && !(self.min.y <= o.y && o.y <= self.max.y) {
            return false;
        }
        if !cz && !(self.min.z <= o.z && o.z <= self.max.z) {
            return false;
        }
        let tmin128: i128 = tmin as i128;
        let tmax128: i128 = tmax as i128;
        proof {
            lemma_mul_bound(tmin as int, ex as int, VMAX as int, 0x100000000);
            lemma_mul_bound(tmin as int, ey as int, VMAX as int, 0x100000000);
            lemma_mul_bound(tmin as int, ez as int, VMAX as int, 0x100000000);
            lemma_mul_bound(tmax as int, ex as int, VMAX as int, 0x100000000);
            lemma_mul_bound(tmax as int, ey as int, VMAX as int, 0x100000000);
            lemma_mul_bound(tmax as int, ez as int, VMAX as int, 0x100000000);
        }
        let some_near: bool = (cx && tmin128 * ex <= nx) || (cy && tmin128 * ey <= ny) || (cz
            && tmin128 * ez <= nz);
        if !some_near {
            return false;
        }
        if cx && !(nx < tmax128 * ex) {
            return false;
        }
        if cy && !(ny < tmax128 * ey) {
            return false;
        }
        if cz && !(nz < tmax128 * ez) {
            return false;
        }
        if cx && !(nx < fx) {
            return false;
        }
        if cy && !(ny < fy) {
            return false;
        }
        if cz && !(nz < fz) {
            return false;
        }
        if cx && cy && !(frac_lt_e(nx, ex, fy, ey) && frac_lt_e(ny, ey, fx, ex)) {
            return false;
        }
        if cx && cz && !(frac_lt_e(nx, ex, fz, ez) && frac_lt_e(nz, ez, fx, ex)) {
            return false;
        }
        if cy && cz && !(frac_lt_e(ny, ey, fz, ez) && frac_lt_e(nz, ez, fy, ey)) {
            return false;
        }
        true
    }
}

} // verus!
