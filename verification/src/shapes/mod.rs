//! Rays, hit records, and the closed set of geometric primitives.
//!
//! A ray is immutable once built; `RayBuilder::build` records the per-axis
//! direction signs the slab test selects its near and far planes with.  The
//! intersection predicates divide exactly, so no reciprocal directions are
//! stored.
use crate::fx::{lemma_mul_bound, lemma_mul_fx_range, lemma_tdiv_bound, mul_fx, mul_fx_spec, SCALE};
use crate::rgb::Rgb;
use crate::texture::{texture_wf, PureColorTexture, Texture};
use crate::vectors::{in_range, len2_wide, safe_unit_spec, vadd_spec, vscale_spec, vsub_spec,
    Vector3, VMAX, WMAX};
use vstd::prelude::*;

pub mod sphere;
pub mod triangle;

verus! {

#[derive(Debug, Clone, Copy)]
pub struct Ray {
    pub origin: Vector3,
    pub direction: Vector3,
    /// Per-axis sign of the direction (x, y, z): true where negative.
    pub neg: [bool; 3],
}

#[derive(Debug, Clone, Copy, PartialEq, Eq, Structural)]
pub struct RayBuilder {
    pub origin: Vector3,
    pub direction: Vector3,
}

/// The ray a builder freezes: origin, direction, and the direction's
/// per-axis signs.
pub open spec fn ray_at(o: Vector3, d: Vector3) -> Ray {
    Ray { origin: o, direction: d, neg: [d.x < 0, d.y < 0, d.z < 0] }
}

/// The point `origin + direction * t` for a fixed-point parameter `t`.
pub open spec fn ray_point_spec(ray: Ray, t: int) -> Vector3 {
    Vector3 {
        x: (ray.origin.x + mul_fx_spec(ray.direction.x as int, t)) as i64,
        y: (ray.origin.y + mul_fx_spec(ray.direction.y as int, t)) as i64,
        z: (ray.origin.z + mul_fx_spec(ray.direction.z as int, t)) as i64,
    }
}

impl RayBuilder {
    /// Freeze the builder into a ray, recording the direction signs.
    pub fn build(&self) -> (r: Ray)
        ensures
            r == ray_at(self.origin, self.direction),
            r.origin == self.origin,
            r.direction == self.direction,
            r.neg[0] == (self.direction.x < 0),
            r.neg[1] == (self.direction.y < 0),
            r.neg[2] == (self.direction.z < 0),
    {
        Ray {
            origin: self.origin,
            direction: self.direction,
            neg: [self.direction.x < 0, self.direction.y < 0, self.direction.z < 0],
        }
    }
}

impl Ray {
    /// The point this ray reaches at parameter `t`.
    pub fn point_at(&self, t: i64) -> (p: Vector3)
        requires
            in_range(self.origin, VMAX as int),
            in_range(self.direction, VMAX as int),
            -VMAX <= t <= VMAX,
        ensures
            p == ray_point_spec(*self, t as int),
            in_range(p, 0x2000000000000000),
    {
        proof {
            lemma_mul_bound(self.direction.x as int, t as int, VMAX as int, VMAX as int);
            lemma_mul_bound(self.direction.y as int, t as int, VMAX as int, VMAX as int);
            lemma_mul_bound(self.direction.z as int, t as int, VMAX as int, VMAX as int);
            lemma_tdiv_bound(self.direction.x as int * t as int, SCALE as int);
            lemma_tdiv_bound(self.direction.y as int * t as int, SCALE as int);
            lemma_tdiv_bound(self.direction.z as int * t as int, SCALE as int);
        }
        Vector3 {
            x: self.origin.x + mul_fx(self.direction.x, t),
            y: self.origin.y + mul_fx(self.direction.y, t),
            z: self.origin.z + mul_fx(self.direction.z, t),
        }
    }
}

#[derive(Debug, Clone, Copy, PartialEq, Eq, Structural)]
pub struct HitRecord {
    /// Fixed-point distance along the ray.
    pub t: i64,
    /// World-space point the ray reached.
    pub pos: Vector3,
    /// Outward surface direction (unit, except for degenerate geometry).
    pub normal: Vector3,
}

/// The closed set of primitives a scene may hold.
#[derive(Debug, Clone, Copy, PartialEq, Eq, Structural)]
pub enum Shape {
    Sphere(sphere::Sphere),
    Triangle(triangle::Triangle),
}

/// The bounds under which a primitive can be intersected.
pub open spec fn shape_wf(s: Shape) -> bool {
    match s {
        Shape::Sphere(sp) => in_range(sp.center, WMAX as int) && 0 < sp.radius <= WMAX,
        Shape::Triangle(t) => in_range(t.p0, WMAX as int) && in_range(t.p1, WMAX as int)
            && in_range(t.p2, WMAX as int),
    }
}

/// Whether the displaced primitive is hit by `ray` within `[tmin, tmax]`.
pub open spec fn shape_hit_some(s: Shape, ray: Ray, tmin: int, tmax: int, tr: Vector3) -> bool {
    match s {
        Shape::Sphere(sp) => {
            let cm = vadd_spec(sp.center, tr);
            &&& sphere::sphere_disc(ray, cm, sp.radius as int) > 0
            &&& tmin <= sphere::sphere_hit_t(ray, cm, sp.radius as int, tmin) <= tmax
        },
        Shape::Triangle(t) => triangle::tri_hits(
            vadd_spec(t.p0, tr),
            vadd_spec(t.p1, tr),
            vadd_spec(t.p2, tr),
            ray,
            tmin,
            tmax,
        ),
    }
}

/// The reported ray parameter of the hit (meaningful when the primitive is
/// hit).
pub open spec fn shape_hit_t(s: Shape, ray: Ray, tmin: int, tr: Vector3) -> int {
    match s {
        Shape::Sphere(sp) => sphere::sphere_hit_t(
            ray,
            vadd_spec(sp.center, tr),
            sp.radius as int,
            tmin,
        ),
        Shape::Triangle(t) => triangle::tri_t(
            vadd_spec(t.p0, tr),
            vadd_spec(t.p1, tr),
            vadd_spec(t.p2, tr),
            ray,
        ),
    }
}

/// The reported surface direction of the hit.
pub open spec fn shape_hit_normal(s: Shape, ray: Ray, tmin: int, tr: Vector3) -> Vector3 {
    match s {
        Shape::Sphere(sp) => safe_unit_spec(
            vsub_spec(
                ray_point_spec(ray, shape_hit_t(s, ray, tmin, tr)),
                vadd_spec(sp.center, tr),
            ),
        ),
        Shape::Triangle(t) => {
            let q0 = vadd_spec(t.p0, tr);
            let q1 = vadd_spec(t.p1, tr);
            let q2 = vadd_spec(t.p2, tr);
            safe_unit_spec(crate::vectors::cross_spec(vsub_spec(q1, q0), vsub_spec(q2, q0)))
        },
    }
}

impl Shape {
    /// Nearest intersection of `ray` with this primitive displaced by
    /// `translation`, restricted to `[tmin, tmax]`.
    pub fn hit(&self, ray: &Ray, tmin: i64, tmax: i64, translation: &Vector3) -> (res: Option<
        HitRecord,
    >)
        requires
            shape_wf(*self),
            in_range(ray.origin, WMAX as int),
            in_range(ray.direction, WMAX as int),
            len2_wide(ray.direction) > 0,
            in_range(*translation, WMAX as int),
            -VMAX <= tmin <= VMAX,
            -VMAX <= tmax <= VMAX,
        ensures
            (res is Some <==> shape_hit_some(
                *self,
                *ray,
                tmin as int,
                tmax as int,
                *translation,
            )),
            (res matches Some(rec) ==> {
                &&& rec.t == shape_hit_t(*self, *ray, tmin as int, *translation)
                &&& tmin <= rec.t <= tmax
                &&& rec.pos == ray_point_spec(*ray, rec.t as int)
                &&& rec.normal == shape_hit_normal(*self, *ray, tmin as int, *translation)
            }),
            (res matches Some(rec) && in_range(ray.direction, SCALE as int) && -0x2000000000
                <= tmin && tmax <= 0x2000000000) ==> in_range(res->Some_0.pos, VMAX as int),
    {
        let res = match self {
            Shape::Sphere(sp) => sp.hit(ray, tmin, tmax, translation),
            Shape::Triangle(t) => t.hit(ray, tmin, tmax, translation),
        };
        proof {
            if res is Some && in_range(ray.direction, SCALE as int) && -0x2000000000 <= tmin
                && tmax <= 0x2000000000 {
                let rec = res->Some_0;
                lemma_mul_fx_range(ray.direction.x as int, rec.t as int, 0x10000, 0x2000000000);
                lemma_mul_fx_range(ray.direction.y as int, rec.t as int, 0x10000, 0x2000000000);
                lemma_mul_fx_range(ray.direction.z as int, rec.t as int, 0x10000, 0x2000000000);
            }
        }
        res
    }
}

/// A primitive paired with its surface texture and placement: a static
/// displacement plus a displacement per unit of sample time (the canonical
/// translation-only motion-blur model).
#[derive(Debug, Clone, PartialEq, Eq)]
pub struct TexedShape {
    pub texture: Texture,
    pub shape: Shape,
    pub transform: Vector3,
    pub velocity: Vector3,
}

/// The bounds under which a placed shape can be rendered.
pub open spec fn texed_wf(ts: TexedShape) -> bool {
    &&& texture_wf(ts.texture)
    &&& shape_wf(ts.shape)
    &&& in_range(ts.transform, 0x10000000)
    &&& in_range(ts.velocity, 0x10000000)
}

/// Where a placed shape stands at sample time `time` (a fraction of the
/// exposure).
pub open spec fn translation_at_spec(ts: TexedShape, time: int) -> Vector3 {
    vadd_spec(ts.transform, vscale_spec(ts.velocity, time))
}

impl TexedShape {
    /// The displacement of this shape at sample time `time`.
    pub fn translation_at(&self, time: i64) -> (tr: Vector3)
        requires
            texed_wf(*self),
            0 <= time <= SCALE,
        ensures
            tr == translation_at_spec(*self, time as int),
            in_range(tr, WMAX as int),
    {
        proof {
            lemma_mul_fx_range(self.velocity.x as int, time as int, 0x10000000, 0x10000);
            lemma_mul_fx_range(self.velocity.y as int, time as int, 0x10000000, 0x10000);
            lemma_mul_fx_range(self.velocity.z as int, time as int, 0x10000000, 0x10000);
        }
        self.transform.add(&self.velocity.scale(time))
    }

    /// Nearest intersection against this shape at sample time `time`.
    pub fn hit(&self, ray: &Ray, tmin: i64, tmax: i64, time: i64) -> (res: Option<HitRecord>)
        requires
            texed_wf(*self),
            in_range(ray.origin, WMAX as int),
            in_range(ray.direction, WMAX as int),
            len2_wide(ray.direction) > 0,
            -VMAX <= tmin <= VMAX,
            -VMAX <= tmax <= VMAX,
            0 <= time <= SCALE,
        ensures
            ({
                let tr = translation_at_spec(*self, time as int);
                &&& (res is Some <==> shape_hit_some(self.shape, *ray, tmin as int, tmax as int, tr))
                &&& (res matches Some(rec) ==> {
                    &&& rec.t == shape_hit_t(self.shape, *ray, tmin as int, tr)
                    &&& tmin <= rec.t <= tmax
                    &&& rec.pos == ray_point_spec(*ray, rec.t as int)
                    &&& rec.normal == shape_hit_normal(self.shape, *ray, tmin as int, tr)
                })
                &&& (res matches Some(rec) && in_range(ray.direction, SCALE as int)
                    && -0x2000000000 <= tmin && tmax <= 0x2000000000) ==> in_range(
                    res->Some_0.pos,
                    VMAX as int,
                )
            }),
    {
        let tr = self.translation_at(time);
        self.shape.hit(ray, tmin, tmax, &tr)
    }
}

/// A shape at the origin wearing one constant color.
pub fn pure_color_shape(color: Rgb, shape: Shape) -> (ts: TexedShape)
    ensures
        ts.texture == Texture::Pure(PureColorTexture { color }),
        ts.shape == shape,
        ts.transform == (Vector3 { x: 0i64, y: 0i64, z: 0i64 }),
        ts.velocity == (Vector3 { x: 0i64, y: 0i64, z: 0i64 }),
{
    TexedShape {
        texture: Texture::Pure(PureColorTexture { color }),
        shape,
        transform: Vector3 { x: 0, y: 0, z: 0 },
        velocity: Vector3 { x: 0, y: 0, z: 0 },
    }
}

} // verus!
