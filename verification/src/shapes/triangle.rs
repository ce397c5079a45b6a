//! Ray–triangle intersection by the classic Cramer's-rule barycentric solve.
//!
//! The determinant, the barycentric numerators and the distance numerator are
//! exact wide-integer polynomials, so the boundary policy is exact: a zero
//! determinant (parallel or degenerate) is a miss, and hits with `beta` or
//! `gamma` exactly on 0 or 1, or `beta + gamma` exactly 1, are misses — edges
//! and vertices are excluded.
use crate::fx::{lemma_mul_bound, tdiv, SCALE};
use crate::shapes::{ray_point_spec, HitRecord, Ray};
use crate::vectors::{cross_spec, in_range, safe_unit_spec, vadd_spec, vsub_spec, Vector3, VMAX,
    WMAX};
use vstd::prelude::*;

verus! {

#[derive(Debug, Clone, Copy, PartialEq, Eq, Structural)]
pub struct Triangle {
    pub p0: Vector3,
    pub p1: Vector3,
    pub p2: Vector3,
}

/// The primary determinant of the barycentric solve.
pub open spec fn tri_denom(q0: Vector3, q1: Vector3, q2: Vector3, ray: Ray) -> int {
    let a = q0.x - q1.x;
    let b = q0.y - q1.y;
    let c = q0.z - q1.z;
    let d = q0.x - q2.x;
    let e = q0.y - q2.y;
    let f = q0.z - q2.z;
    let g = ray.direction.x as int;
    let h = ray.direction.y as int;
    let i = ray.direction.z as int;
    a * (e * i - h * f) + b * (g * f - d * i) + c * (d * h - e * g)
}

/// Numerator of the barycentric coordinate `beta` (same denominator).
pub open spec fn tri_beta_num(q0: Vector3, q1: Vector3, q2: Vector3, ray: Ray) -> int {
    let d = q0.x - q2.x;
    let e = q0.y - q2.y;
    let f = q0.z - q2.z;
    let g = ray.direction.x as int;
    let h = ray.direction.y as int;
    let i = ray.direction.z as int;
    let j = q0.x - ray.origin.x;
    let k = q0.y - ray.origin.y;
    let l = q0.z - ray.origin.z;
    j * (e * i - h * f) + k * (g * f - d * i) + l * (d * h - e * g)
}

/// Numerator of the barycentric coordinate `gamma` (same denominator).
pub open spec fn tri_gamma_num(q0: Vector3, q1: Vector3, q2: Vector3, ray: Ray) -> int {
    let a = q0.x - q1.x;
    let b = q0.y - q1.y;
    let c = q0.z - q1.z;
    let g = ray.direction.x as int;
    let h = ray.direction.y as int;
    let i = ray.direction.z as int;
    let j = q0.x - ray.origin.x;
    let k = q0.y - ray.origin.y;
    let l = q0.z - ray.origin.z;
    i * (a * k - j * b) + h * (j * c - a * l) + g * (b * l - k * c)
}

/// Numerator of the ray parameter `t` (same denominator).
pub open spec fn tri_t_num(q0: Vector3, q1: Vector3, q2: Vector3, ray: Ray) -> int {
    let a = q0.x - q1.x;
    let b = q0.y - q1.y;
    let c = q0.z - q1.z;
    let d = q0.x - q2.x;
    let e = q0.y - q2.y;
    let f = q0.z - q2.z;
    let j = q0.x - ray.origin.x;
    let k = q0.y - ray.origin.y;
    let l = q0.z - ray.origin.z;
    -(f * (a * k - j * b) + e * (j * c - a * l) + d * (b * l - k * c))
}

/// Whether the exact fraction `n / d` is at most zero (`d != 0`).
pub open spec fn frac_nonpos(n: int, d: int) -> bool {
    if d > 0 {
        n <= 0
    } else {
        n >= 0
    }
}

/// Whether the exact fraction `n / d` is at least one (`d != 0`).
pub open spec fn frac_ge_one(n: int, d: int) -> bool {
    if d > 0 {
        n >= d
    } else {
        n <= d
    }
}

/// The fixed-point ray parameter of the intersection point.
pub open spec fn tri_t(q0: Vector3, q1: Vector3, q2: Vector3, ray: Ray) -> int {
    tdiv(tri_t_num(q0, q1, q2, ray) * (SCALE as int), tri_denom(q0, q1, q2, ray))
}

/// Whether the ray meets the open interior of the triangle within
/// `[tmin, tmax]`: the determinant is non-zero, `0 < beta < 1`,
/// `gamma > 0`, `beta + gamma < 1`, and the distance is in range.
pub open spec fn tri_hits(
    q0: Vector3,
    q1: Vector3,
    q2: Vector3,
    ray: Ray,
    tmin: int,
    tmax: int,
) -> bool {
    let dn = tri_denom(q0, q1, q2, ray);
    let bn = tri_beta_num(q0, q1, q2, ray);
    let gn = tri_gamma_num(q0, q1, q2, ray);
    &&& dn != 0
    &&& !frac_nonpos(bn, dn)
    &&& !frac_ge_one(bn, dn)
    &&& !frac_nonpos(gn, dn)
    &&& !frac_ge_one(bn + gn, dn)
    &&& tmin <= tri_t(q0, q1, q2, ray) <= tmax
}

/// Boundary exclusivity: when the barycentric solve lands `beta` or `gamma`
/// exactly on 0, `beta` exactly on 1, or `beta + gamma` exactly on 1 — a ray
/// through an edge or a vertex of the triangle — the intersection is a miss,
/// whatever the parametric range.
pub proof fn lemma_boundary_excluded(
    q0: Vector3,
    q1: Vector3,
    q2: Vector3,
    ray: Ray,
    tmin: int,
    tmax: int,
)
    requires
        tri_denom(q0, q1, q2, ray) != 0,
        tri_beta_num(q0, q1, q2, ray) == 0 || tri_beta_num(q0, q1, q2, ray) == tri_denom(
            q0,
            q1,
            q2,
            ray,
        ) || tri_gamma_num(q0, q1, q2, ray) == 0 || tri_beta_num(q0, q1, q2, ray) + tri_gamma_num(
            q0,
            q1,
            q2,
            ray,
        ) == tri_denom(q0, q1, q2, ray),
    ensures
        !tri_hits(q0, q1, q2, ray, tmin, tmax),
{
}

/// Whether the exact fraction `n / d` is at most zero.
fn frac_nonpos_e(n: i128, d: i128) -> (r: bool)
    requires
        d != 0,
    ensures
        r == frac_nonpos(n as int, d as int),
{
    if d > 0 {
        n <= 0
    } else {
        n >= 0
    }
}

/// Whether the exact fraction `n / d` is at least one.
fn frac_ge_one_e(n: i128, d: i128) -> (r: bool)
    requires
        d != 0,
    ensures
        r == frac_ge_one(n as int, d as int),
{
    if d > 0 {
        n >= d
    } else {
        n <= d
    }
}

impl Triangle {
    pub fn new(p0: Vector3, p1: Vector3, p2: Vector3) -> (t: Triangle)
        ensures
            t == (Triangle { p0, p1, p2 }),
    {
        Triangle { p0, p1, p2 }
    }

    /// Nearest intersection of `ray` with this triangle displaced by
    /// `translation`, restricted to `[tmin, tmax]`.
    pub fn hit(&self, ray: &Ray, tmin: i64, tmax: i64, translation: &Vector3) -> (res: Option<
        HitRecord,
    >)
        requires
            in_range(ray.origin, WMAX as int),
            in_range(ray.direction, WMAX as int),
            in_range(self.p0, WMAX as int),
            in_range(self.p1, WMAX as int),
            in_range(self.p2, WMAX as int),
            in_range(*translation, WMAX as int),
            -VMAX <= tmin <= VMAX,
            -VMAX <= tmax <= VMAX,
        ensures
            ({
                let q0 = vadd_spec(self.p0, *translation);
                let q1 = vadd_spec(self.p1, *translation);
                let q2 = vadd_spec(self.p2, *translation);
                &&& (res is Some <==> tri_hits(q0, q1, q2, *ray, tmin as int, tmax as int))
                &&& (res matches Some(rec) ==> {
                    &&& rec.t == tri_t(q0, q1, q2, *ray)
                    &&& rec.pos == ray_point_spec(*ray, rec.t as int)
                    &&& rec.normal == safe_unit_spec(
                        cross_spec(vsub_spec(q1, q0), vsub_spec(q2, q0)),
                    )
                })
            }),
    {
        let q0 = self.p0.add(translation);
        let q1 = self.p1.add(translation);
        let q2 = self.p2.add(translation);
        let a: i128 = q0.x as i128 - q1.x as i128;
        let b: i128 = q0.y as i128 - q1.y as i128;
        let c: i128 = q0.z as i128 - q1.z as i128;
        let d: i128 = q0.x as i128 - q2.x as i128;
        let e: i128 = q0.y as i128 - q2.y as i128;
        let f: i128 = q0.z as i128 - q2.z as i128;
        let g: i128 = ray.direction.x as i128;
        let h: i128 = ray.direction.y as i128;
        let i: i128 = ray.direction.z as i128;
        let j: i128 = q0.x as i128 - ray.origin.x as i128;
        let k: i128 = q0.y as i128 - ray.origin.y as i128;
        let l: i128 = q0.z as i128 - ray.origin.z as i128;
        proof {
            let m30: int = 4 * WMAX as int;
            lemma_mul_bound(e as int, i as int, m30, m30);
            lemma_mul_bound(h as int, f as int, m30, m30);
            lemma_mul_bound(g as int, f as int, m30, m30);
            lemma_mul_bound(d as int, i as int, m30, m30);
            lemma_mul_bound(d as int, h as int, m30, m30);
            lemma_mul_bound(e as int, g as int, m30, m30);
            lemma_mul_bound(a as int, k as int, m30, m30);
            lemma_mul_bound(j as int, b as int, m30, m30);
            lemma_mul_bound(j as int, c as int, m30, m30);
            lemma_mul_bound(a as int, l as int, m30, m30);
            lemma_mul_bound(b as int, l as int, m30, m30);
            lemma_mul_bound(k as int, c as int, m30, m30);
        }
        let eihf: i128 = e * i - h * f;
        let gfdi: i128 = g * f - d * i;
        let dheg: i128 = d * h - e * g;
        let akjb: i128 = a * k - j * b;
        let jcal: i128 = j * c - a * l;
        let blkc: i128 = b * l - k * c;
        proof {
            let m30: int = 4 * WMAX as int;
            let m62: int = 2 * ((4 * WMAX as int) * (4 * WMAX as int));
            lemma_mul_bound(a as int, eihf as int, m30, m62);
            lemma_mul_bound(b as int, gfdi as int, m30, m62);
            lemma_mul_bound(c as int, dheg as int, m30, m62);
            lemma_mul_bound(j as int, eihf as int, m30, m62);
            lemma_mul_bound(k as int, gfdi as int, m30, m62);
            lemma_mul_bound(l as int, dheg as int, m30, m62);
            lemma_mul_bound(i as int, akjb as int, m30, m62);
            lemma_mul_bound(h as int, jcal as int, m30, m62);
            lemma_mul_bound(g as int, blkc as int, m30, m62);
            lemma_mul_bound(f as int, akjb as int, m30, m62);
            lemma_mul_bound(e as int, jcal as int, m30, m62);
            lemma_mul_bound(d as int, blkc as int, m30, m62);
        }
        let dn: i128 = a * eihf + b * gfdi + c * dheg;
        if dn == 0 {
            return None;
        }
        let bn: i128 = j * eihf + k * gfdi + l * dheg;
        if frac_nonpos_e(bn, dn) || frac_ge_one_e(bn, dn) {
            return None;
        }
        let gn: i128 = i * akjb + h * jcal + g * blkc;
        if frac_nonpos_e(gn, dn) || frac_ge_one_e(bn + gn, dn) {
            return None;
        }
        let tn: i128 = -(f * akjb + e * jcal + d * blkc);
        let tn2: i128 = if dn > 0 {
            tn
        } else {
            -tn
        };
        let dn2: i128 = if dn > 0 {
            dn
        } else {
            -dn
        };
        proof {
            crate::fx::lemma_tdiv_neg(tn as int * 65536, dn as int);
        }
        let t: i128 = (tn2 * 65536) / dn2;
        if t < tmin as i128 || t > tmax as i128 {
            return None;
        }
        let t64: i64 = t as i64;
        let pos = ray.point_at(t64);
        let edge1 = q1.sub(&q0);
        let edge2 = q2.sub(&q0);
        let normal = edge1.cross(&edge2).unit_safe();
        Some(HitRecord { t: t64, pos, normal })
    }
}

} // verus!
