//! Ray–sphere intersection.
//!
//! The quadratic `a t^2 + b t + c = 0` is assembled from wide integer
//! products, so the discriminant test is exact: a non-positive discriminant
//! (miss or tangency) is a miss.  Of the two roots, the smaller is preferred
//! when it reaches `tmin`, else the larger; the chosen root must lie in
//! `[tmin, tmax]`.
use crate::fx::{lemma_mul_bound, sqrt_floor, tdiv, SCALE};
use crate::shapes::{ray_point_spec, HitRecord, Ray};
use crate::vectors::{in_range, len2_wide, safe_unit_spec, vadd_spec, vsub_spec, Vector3, VMAX,
    WMAX};
use vstd::prelude::*;

verus! {

#[derive(Debug, Clone, Copy, PartialEq, Eq, Structural)]
pub struct Sphere {
    pub center: Vector3,
    pub radius: i64,
}

/// Leading quadratic coefficient: the wide squared length of the direction.
pub open spec fn quad_a(ray: Ray) -> int {
    len2_wide(ray.direction)
}

/// Middle coefficient: twice the wide dot of direction and center offset.
pub open spec fn quad_b(ray: Ray, c: Vector3) -> int {
    2 * ((ray.origin.x - c.x) * ray.direction.x + (ray.origin.y - c.y) * ray.direction.y + (
    ray.origin.z - c.z) * ray.direction.z)
}

/// Constant coefficient: wide squared center offset less the squared radius.
pub open spec fn quad_c(ray: Ray, c: Vector3, radius: int) -> int {
    (ray.origin.x - c.x) * (ray.origin.x - c.x) + (ray.origin.y - c.y) * (ray.origin.y - c.y) + (
    ray.origin.z - c.z) * (ray.origin.z - c.z) - radius * radius
}

/// The quadratic's discriminant `b^2 - 4 a c`.
pub open spec fn sphere_disc(ray: Ray, c: Vector3, radius: int) -> int {
    quad_b(ray, c) * quad_b(ray, c) - 4 * (quad_a(ray) * quad_c(ray, c, radius))
}

/// The root the intersection reports (meaningful when the discriminant is
/// positive): the smaller root if it reaches `tmin`, else the larger.
pub open spec fn sphere_hit_t(ray: Ray, c: Vector3, radius: int, tmin: int) -> int {
    let b = quad_b(ray, c);
    let a = quad_a(ray);
    let s = sqrt_floor(sphere_disc(ray, c, radius) as nat) as int;
    let t1 = tdiv((-b - s) * SCALE, 2 * a);
    let t2 = tdiv((-b + s) * SCALE, 2 * a);
    if t1 >= tmin {
        t1
    } else {
        t2
    }
}

/// A head-on ray meets a sphere at exactly its radius: for any radius `r`,
/// a ray from `(-2r, 0, 0)` along `+x` toward a sphere of radius `r` at the
/// origin has a positive discriminant and reports the parameter `r` itself
/// (no rounding is involved: the discriminant is a perfect square).
pub proof fn lemma_head_on_sphere_hit(ray: Ray, r: i64, tmin: int)
    requires
        0 < r <= 0x10000000,
        ray.origin == (Vector3 { x: (-2 * r) as i64, y: 0i64, z: 0i64 }),
        ray.direction == (Vector3 { x: 0x10000i64, y: 0i64, z: 0i64 }),
        tmin <= r,
    ensures
        sphere_disc(ray, Vector3 { x: 0i64, y: 0i64, z: 0i64 }, r as int) > 0,
        sphere_hit_t(ray, Vector3 { x: 0i64, y: 0i64, z: 0i64 }, r as int, tmin) == r,
{
    let c = Vector3 { x: 0i64, y: 0i64, z: 0i64 };
    let a = quad_a(ray);
    let b = quad_b(ray, c);
    let cc = quad_c(ray, c, r as int);
    assert(a == 0x10000 * 0x10000 && b == 2 * ((-2 * r) * 0x10000) && cc == (-2 * r) * (-2 * r) - r
        * r);
    let disc = sphere_disc(ray, c, r as int);
    assert(disc == b * b - 4 * (a * cc));
    assert(disc == 4 * r * r * 0x10000 * 0x10000 && disc > 0 && b == -4 * r * 0x10000)
        by (nonlinear_arith)
        requires
            a == 0x10000 * 0x10000,
            b == 2 * ((-2 * r) * 0x10000),
            cc == (-2 * r) * (-2 * r) - r * r,
            disc == b * b - 4 * (a * cc),
            r > 0,
    ;
    let w = (2 * r * 0x10000) as nat;
    assert(w * w <= disc && disc < (w + 1) * (w + 1)) by (nonlinear_arith)
        requires
            disc == 4 * r * r * 0x10000 * 0x10000,
            w == 2 * r * 0x10000,
            r > 0,
    ;
    crate::fx::lemma_sqrt_unique(disc as nat, w);
    let s = sqrt_floor(disc as nat) as int;
    assert(s == 2 * r * 0x10000);
    let t1 = tdiv((-b - s) * 65536, 2 * a);
    assert((-b - s) * 65536 == r * (2 * a) && 2 * a > 0 && (-b - s) * 65536 >= 0)
        by (nonlinear_arith)
        requires
            b == -4 * r * 0x10000,
            s == 2 * r * 0x10000,
            a == 0x10000 * 0x10000,
            r > 0,
    ;
    assert(t1 == ((-b - s) * 65536) / (2 * a));
    assert(t1 == r) by (nonlinear_arith)
        requires
            t1 == ((-b - s) * 65536) / (2 * a),
            (-b - s) * 65536 == r * (2 * a),
            2 * a > 0,
    ;
}

impl Sphere {
    pub fn new(center: Vector3, radius: i64) -> (s: Sphere)
        requires
            radius > 0,
        ensures
            s == (Sphere { center, radius }),
    {
        Sphere { center, radius }
    }

    /// Nearest intersection of `ray` with this sphere displaced by
    /// `translation`, restricted to `[tmin, tmax]`.
    pub fn hit(&self, ray: &Ray, tmin: i64, tmax: i64, translation: &Vector3) -> (res: Option<
        HitRecord,
    >)
        requires
            in_range(ray.origin, WMAX as int),
            in_range(ray.direction, WMAX as int),
            in_range(self.center, WMAX as int),
            in_range(*translation, WMAX as int),
            0 < self.radius <= WMAX,
            len2_wide(ray.direction) > 0,
            -VMAX <= tmin <= VMAX,
            -VMAX <= tmax <= VMAX,
        ensures
            ({
                let cm = vadd_spec(self.center, *translation);
                let disc = sphere_disc(*ray, cm, self.radius as int);
                let t = sphere_hit_t(*ray, cm, self.radius as int, tmin as int);
                &&& (res is Some <==> disc > 0 && tmin <= t <= tmax)
                &&& (res matches Some(rec) ==> {
                    &&& rec.t == t
                    &&& rec.pos == ray_point_spec(*ray, t)
                    &&& rec.normal == safe_unit_spec(vsub_spec(rec.pos, cm))
                })
            }),
    {
        let cm = self.center.add(translation);
        let ox: i128 = ray.origin.x as i128 - cm.x as i128;
        let oy: i128 = ray.origin.y as i128 - cm.y as i128;
        let oz: i128 = ray.origin.z as i128 - cm.z as i128;
        let dx: i128 = ray.direction.x as i128;
        let dy: i128 = ray.direction.y as i128;
        let dz: i128 = ray.direction.z as i128;
        proof {
            lemma_mul_bound(dx as int, dx as int, WMAX as int, WMAX as int);
            lemma_mul_bound(dy as int, dy as int, WMAX as int, WMAX as int);
            lemma_mul_bound(dz as int, dz as int, WMAX as int, WMAX as int);
            lemma_mul_bound(ox as int, dx as int, 3 * WMAX as int, WMAX as int);
            lemma_mul_bound(oy as int, dy as int, 3 * WMAX as int, WMAX as int);
            lemma_mul_bound(oz as int, dz as int, 3 * WMAX as int, WMAX as int);
            lemma_mul_bound(ox as int, ox as int, 3 * WMAX as int, 3 * WMAX as int);
            lemma_mul_bound(oy as int, oy as int, 3 * WMAX as int, 3 * WMAX as int);
            lemma_mul_bound(oz as int, oz as int, 3 * WMAX as int, 3 * WMAX as int);
            lemma_mul_bound(self.radius as int, self.radius as int, WMAX as int, WMAX as int);
        }
        let a: i128 = dx * dx + dy * dy + dz * dz;
        let b: i128 = 2 * (ox * dx + oy * dy + oz * dz);
        let cc: i128 = ox * ox + oy * oy + oz * oz - (self.radius as i128) * (self.radius as i128);
        proof {
            lemma_mul_bound(b as int, b as int, 0x4800000000000000, 0x4800000000000000);
            lemma_mul_bound(a as int, cc as int, 0xc00000000000000, 0x7000000000000000);
        }
        let disc: i128 = b * b - 4 * (a * cc);
        if disc <= 0 {
            return None;
        }
        let s: u64 = crate::fx::isqrt(disc as u128);
        proof {
            crate::fx::lemma_sqrt_floor(disc as nat);
            assert(s as int * s as int <= disc);
            assert(s < 0x8000000000000000u64) by (nonlinear_arith)
                requires
                    s as int * s as int <= disc,
                    disc < 0x40000000000000000000000000000000,
                    s >= 0,
            ;
        }
        let si: i128 = s as i128;
        let t1: i128 = ((-b - si) * 65536) / (2 * a);
        let t2: i128 = ((-b + si) * 65536) / (2 * a);
        let t: i128 = if t1 >= tmin as i128 {
            t1
        } else {
            t2
        };
        if t < tmin as i128 || t > tmax as i128 {
            return None;
        }
        let t64: i64 = t as i64;
        let pos = ray.point_at(t64);
        let diff = pos.sub(&cm);
        let normal = diff.unit_safe();
        Some(HitRecord { t: t64, pos, normal })
    }
}

} // verus!
