//! The thin-lens camera.
//!
//! `CameraBuilder::build` derives the orthonormal basis `(u, v, n)` and the
//! view plane's left-bottom corner, and fails fast on a degenerate
//! configuration (zero view direction, zero up vector, or up parallel to the
//! view direction).  `gen_ray` maps a pixel sample and a lens sample to a
//! world ray: the lens sample offsets the ray origin across the aperture, and
//! the ray is refracted so that all rays of one pixel converge at the
//! in-focus point.  A lens radius of zero degenerates exactly to a pinhole
//! camera (`lemma_pinhole_rays_converge`).
use crate::fx::{div_fx_spec, lemma_mul_bound, lemma_mul_fx_range, lemma_sqrt_floor, lemma_tdiv_bound,
    mul_fx, mul_fx_spec, sqrt_floor, tdiv, tdiv_i128, SCALE};
use crate::vectors::lemma_dot_wide_bound;
use crate::shapes::{ray_at, Ray, RayBuilder};
use crate::vectors::{cross_spec, cross_wide_is_zero, in_range, len2_wide, lemma_len2_nonneg,
    lemma_len2_zero, safe_unit_spec, unit_spec, vadd_spec, vscale_spec, vsub_spec, Vector2,
    Vector3, VMAX, WMAX};
use vstd::prelude::*;

verus! {

/// Componentwise bound on camera positions and lens measures under which
/// every generated ray stays within the intersection bounds.
pub const CMAX: i64 = 0x1000000;

#[derive(Debug, Clone, Copy, PartialEq, Eq, Structural)]
pub struct ThinLens {
    pub radius: i64,
    pub center: Vector3,
    pub focal_length: i64,
}

#[derive(Debug, Clone, Copy, PartialEq, Eq, Structural)]
pub struct Camera {
    pub lens: ThinLens,
    pub u: Vector3,
    pub v: Vector3,
    pub n: Vector3,
    pub origin: Vector3,
    pub left_bottom: Vector3,
    /// Half of the view plane's width, kept for pixel addressing.
    pub half_width: i64,
    /// Half of the view plane's height.
    pub half_height: i64,
}

#[derive(Debug, Clone, Copy, PartialEq, Eq, Structural)]
pub struct CameraBuilder {
    pub lens: ThinLens,
    pub at: Vector3,
    pub target: Vector3,
    pub up: Vector3,
    /// Width over height, fixed point.
    pub aspect_ratio: i64,
    /// Half of the view plane's width: the tangent of the field-of-view
    /// angle, fixed point (supplied by the caller, since only the caller can
    /// evaluate the tangent).
    pub half_width: i64,
}

/// A degenerate camera configuration, reported at construction time.
#[derive(Debug, Clone, Copy, PartialEq, Eq, Structural)]
pub enum CameraError {
    /// The view direction, the up vector, or their cross product is zero.
    DegenerateBasis,
}

/// A value clamped to `[-m, m]`.
pub open spec fn clamp_spec(x: int, m: int) -> int {
    if x < -m {
        -m
    } else if x > m {
        m
    } else {
        x
    }
}

/// The lens-equation image distance `s * f / (s - f)`, fixed point
/// (meaningful when `s != f`).
pub open spec fn image_dist_spec(f: int, s: int) -> int {
    tdiv(mul_fx_spec(s, f) * 65536, s - f)
}

/// How far along `center - origin` the refracted ray's convergence point
/// lies: `|center - origin| * s / image distance`, clamped to the
/// representable range, and zero when the lens equation degenerates.
pub open spec fn refract_dist_spec(c: Vector3, o: Vector3, f: int, s: int) -> int {
    let l = sqrt_floor(len2_wide(vsub_spec(c, o)) as nat) as int;
    if s == f {
        0
    } else {
        let i = image_dist_spec(f, s);
        if i == 0 {
            0
        } else {
            clamp_spec(tdiv(l * s, i), VMAX as int)
        }
    }
}

/// The convergence point of rays refracted through a lens at `c` toward an
/// object ray from `o` with subject distance `s`.
pub open spec fn refract_dest_spec(c: Vector3, o: Vector3, f: int, s: int) -> Vector3 {
    vadd_spec(vscale_spec(safe_unit_spec(vsub_spec(c, o)), refract_dist_spec(c, o, f, s)), c)
}

/// The point a pixel sample addresses on the view plane.
pub open spec fn pixel_point_spec(cam: Camera, px: int, py: int) -> Vector3 {
    vadd_spec(vadd_spec(cam.left_bottom, vscale_spec(cam.u, px)), vscale_spec(cam.v, py))
}

/// The aperture point a lens sample addresses: the lens center offset along
/// the basis by the sample scaled with the lens radius.
pub open spec fn lens_point_spec(cam: Camera, lx: int, ly: int) -> Vector3 {
    vadd_spec(
        vadd_spec(
            vscale_spec(cam.u, mul_fx_spec(lx, cam.lens.radius as int)),
            vscale_spec(cam.v, mul_fx_spec(ly, cam.lens.radius as int)),
        ),
        cam.lens.center,
    )
}

/// The direction of the generated ray: from the aperture point toward the
/// refracted convergence point of the pixel's view-plane point.
pub open spec fn gen_dir_spec(cam: Camera, px: int, py: int, lx: int, ly: int, s: int) -> Vector3 {
    let pos = pixel_point_spec(cam, px, py);
    let lp = lens_point_spec(cam, lx, ly);
    safe_unit_spec(
        vsub_spec(refract_dest_spec(cam.lens.center, pos, cam.lens.focal_length as int, s), lp),
    )
}

/// The bounds a well-built camera maintains.
pub open spec fn camera_wf(cam: Camera) -> bool {
    &&& in_range(cam.u, 2 * SCALE as int)
    &&& in_range(cam.v, 4 * SCALE as int)
    &&& in_range(cam.n, SCALE as int)
    &&& in_range(cam.origin, CMAX as int)
    &&& in_range(cam.left_bottom, 8 * CMAX as int)
    &&& in_range(cam.lens.center, CMAX as int)
    &&& 0 <= cam.lens.radius <= CMAX
    &&& 0 < cam.lens.focal_length <= CMAX
    &&& 0 <= cam.half_width <= CMAX
    &&& 0 <= cam.half_height <= CMAX
}

impl ThinLens {
    pub fn new(radius: i64, center: Vector3, focal_length: i64) -> (l: ThinLens)
        ensures
            l == (ThinLens { radius, center, focal_length }),
    {
        ThinLens { radius, center, focal_length }
    }

    /// Refract a ray through the lens: the result starts at `hit_pos` (the
    /// aperture point) and heads for the convergence point that the lens
    /// equation assigns to the ray's origin at subject distance `s`.
    pub fn refract(&self, ray: &Ray, hit_pos: Vector3, s: i64) -> (r: Ray)
        requires
            in_range(ray.origin, WMAX as int),
            in_range(self.center, CMAX as int),
            in_range(hit_pos, WMAX as int),
            0 < self.focal_length <= CMAX,
            -VMAX <= s <= VMAX,
        ensures
            r == ray_at(
                hit_pos,
                safe_unit_spec(
                    vsub_spec(
                        refract_dest_spec(
                            self.center,
                            ray.origin,
                            self.focal_length as int,
                            s as int,
                        ),
                        hit_pos,
                    ),
                ),
            ),
            r.origin == hit_pos,
            r.direction == safe_unit_spec(
                vsub_spec(
                    refract_dest_spec(
                        self.center,
                        ray.origin,
                        self.focal_length as int,
                        s as int,
                    ),
                    hit_pos,
                ),
            ),
            len2_wide(r.direction) > 0 ==> in_range(r.direction, SCALE as int),
            r.neg[0] == (r.direction.x < 0),
            r.neg[1] == (r.direction.y < 0),
            r.neg[2] == (r.direction.z < 0),
    {
        let f = self.focal_length;
        let dirv = self.center.sub(&ray.origin);
        proof {
            lemma_len2_nonneg(dirv);
            lemma_dot_wide_bound(dirv, dirv, 0x40000000);
        }
        let l = dirv.length();
        proof {
            lemma_sqrt_floor(len2_wide(dirv) as nat);
            assert(l as int * l as int <= len2_wide(dirv));
            assert(l < 0x100000000) by (nonlinear_arith)
                requires
                    l as int * l as int <= len2_wide(dirv),
                    len2_wide(dirv) <= 0x3000000000000000,
                    l >= 0,
            ;
            lemma_mul_bound(l as int, s as int, 0x100000000, VMAX as int);
            lemma_mul_bound(s as int, f as int, VMAX as int, CMAX as int);
        }
        let dist: i64 = if s == f {
            0
        } else {
            let num = mul_fx(s, f);
            proof {
                lemma_tdiv_bound(num as int * 65536, (s - f) as int);
            }
            let img: i128 = tdiv_i128((num as i128) * 65536, (s - f) as i128);
            if img == 0 {
                0
            } else {
                let d128: i128 = tdiv_i128((l as i128) * (s as i128), img);
                if d128 < -VMAX as i128 {
                    -VMAX
                } else if d128 > VMAX as i128 {
                    VMAX
                } else {
                    d128 as i64
                }
            }
        };
        let u = dirv.unit_safe();
        proof {
            if len2_wide(dirv) > 0 {
            } else {
                assert(u == dirv);
            }
            assert(in_range(u, 0x40000000));
            lemma_mul_fx_range(u.x as int, dist as int, 0x40000000, 0x4000000000);
            lemma_mul_fx_range(u.y as int, dist as int, 0x40000000, 0x4000000000);
            lemma_mul_fx_range(u.z as int, dist as int, 0x40000000, 0x4000000000);
        }
        let dest = u.scale(dist).add(&self.center);
        let diff = dest.sub(&hit_pos);
        let outdir = diff.unit_safe();
        proof {
            if len2_wide(diff) > 0 {
            } else {
                assert(outdir == diff);
            }
        }
        RayBuilder { origin: hit_pos, direction: outdir }.build()
    }
}

impl CameraBuilder {
    /// Derive the camera basis and view plane; fail on a degenerate
    /// configuration.
    pub fn build(&self) -> (res: Result<Camera, CameraError>)
        requires
            in_range(self.at, CMAX as int),
            in_range(self.target, CMAX as int),
            in_range(self.up, CMAX as int),
            in_range(self.lens.center, CMAX as int),
            0 <= self.lens.radius <= CMAX,
            0 < self.lens.focal_length <= CMAX,
            0 < self.aspect_ratio <= VMAX,
            0 <= self.half_width <= CMAX,
            -CMAX <= div_fx_spec(self.half_width as int, self.aspect_ratio as int) <= CMAX,
        ensures
            ({
                let dir = vsub_spec(self.target, self.at);
                let upu = unit_spec(self.up);
                let n = unit_spec(dir);
                let u = cross_spec(n, upu);
                let ok = len2_wide(self.up) > 0 && len2_wide(dir) > 0 && !cross_wide_is_zero(
                    dir,
                    self.up,
                ) && len2_wide(u) > 0;
                &&& (res is Ok <==> ok)
                &&& (res matches Ok(cam) ==> {
                    &&& cam.lens == self.lens
                    &&& cam.n == n
                    &&& cam.u == u
                    &&& cam.v == cross_spec(u, n)
                    &&& cam.origin == self.at
                    &&& cam.half_width == self.half_width
                    &&& cam.half_height == div_fx_spec(
                        self.half_width as int,
                        self.aspect_ratio as int,
                    )
                    &&& cam.left_bottom == vsub_spec(
                        vsub_spec(
                            vsub_spec(self.at, vscale_spec(n, self.lens.focal_length as int)),
                            vscale_spec(u, self.half_width as int),
                        ),
                        vscale_spec(
                            cross_spec(u, n),
                            div_fx_spec(self.half_width as int, self.aspect_ratio as int),
                        ),
                    )
                    &&& camera_wf(cam)
                })
            }),
    {
        proof {
            lemma_len2_zero(self.up);
        }
        if self.up.x == 0 && self.up.y == 0 && self.up.z == 0 {
            return Err(CameraError::DegenerateBasis);
        }
        let upu = self.up.unit();
        let dir = self.target.sub(&self.at);
        proof {
            lemma_len2_zero(dir);
        }
        if dir.x == 0 && dir.y == 0 && dir.z == 0 {
            return Err(CameraError::DegenerateBasis);
        }
        // Exact parallelism test on the raw vectors: the truncated unit
        // basis below can miss an exact multiple, so the wide integer cross
        // decides first.
        proof {
            lemma_mul_bound(dir.y as int, self.up.z as int, 0x2000000, 0x1000000);
            lemma_mul_bound(dir.z as int, self.up.y as int, 0x2000000, 0x1000000);
            lemma_mul_bound(dir.z as int, self.up.x as int, 0x2000000, 0x1000000);
            lemma_mul_bound(dir.x as int, self.up.z as int, 0x2000000, 0x1000000);
            lemma_mul_bound(dir.x as int, self.up.y as int, 0x2000000, 0x1000000);
            lemma_mul_bound(dir.y as int, self.up.x as int, 0x2000000, 0x1000000);
        }
        let wx: i128 = (dir.y as i128) * (self.up.z as i128) - (dir.z as i128) * (
        self.up.y as i128);
        let wy: i128 = (dir.z as i128) * (self.up.x as i128) - (dir.x as i128) * (
        self.up.z as i128);
        let wz: i128 = (dir.x as i128) * (self.up.y as i128) - (dir.y as i128) * (
        self.up.x as i128);
        if wx == 0 && wy == 0 && wz == 0 {
            return Err(CameraError::DegenerateBasis);
        }
        let n = dir.unit();
        proof {
            lemma_mul_fx_range(n.y as int, upu.z as int, 0x10000, 0x10000);
            lemma_mul_fx_range(n.z as int, upu.y as int, 0x10000, 0x10000);
            lemma_mul_fx_range(n.z as int, upu.x as int, 0x10000, 0x10000);
            lemma_mul_fx_range(n.x as int, upu.z as int, 0x10000, 0x10000);
            lemma_mul_fx_range(n.x as int, upu.y as int, 0x10000, 0x10000);
            lemma_mul_fx_range(n.y as int, upu.x as int, 0x10000, 0x10000);
        }
        let u = n.cross(&upu);
        proof {
            lemma_len2_zero(u);
            assert(in_range(u, 2 * SCALE as int));
        }
        if u.x == 0 && u.y == 0 && u.z == 0 {
            return Err(CameraError::DegenerateBasis);
        }
        proof {
            lemma_mul_fx_range(u.y as int, n.z as int, 0x20000, 0x10000);
            lemma_mul_fx_range(u.z as int, n.y as int, 0x20000, 0x10000);
            lemma_mul_fx_range(u.z as int, n.x as int, 0x20000, 0x10000);
            lemma_mul_fx_range(u.x as int, n.z as int, 0x20000, 0x10000);
            lemma_mul_fx_range(u.x as int, n.y as int, 0x20000, 0x10000);
            lemma_mul_fx_range(u.y as int, n.x as int, 0x20000, 0x10000);
        }
        let v = u.cross(&n);
        proof {
            assert(in_range(v, 4 * SCALE as int));
            lemma_mul_fx_range(n.x as int, self.lens.focal_length as int, 0x10000, 0x1000000);
            lemma_mul_fx_range(n.y as int, self.lens.focal_length as int, 0x10000, 0x1000000);
            lemma_mul_fx_range(n.z as int, self.lens.focal_length as int, 0x10000, 0x1000000);
        }
        let origin = self.at.sub(&n.scale(self.lens.focal_length));
        let half_height = crate::fx::div_fx(self.half_width, self.aspect_ratio);
        proof {
            lemma_mul_fx_range(u.x as int, self.half_width as int, 0x20000, 0x1000000);
            lemma_mul_fx_range(u.y as int, self.half_width as int, 0x20000, 0x1000000);
            lemma_mul_fx_range(u.z as int, self.half_width as int, 0x20000, 0x1000000);
            lemma_mul_fx_range(v.x as int, half_height as int, 0x40000, 0x1000000);
            lemma_mul_fx_range(v.y as int, half_height as int, 0x40000, 0x1000000);
            lemma_mul_fx_range(v.z as int, half_height as int, 0x40000, 0x1000000);
        }
        let left_bottom = origin.sub(&u.scale(self.half_width)).sub(&v.scale(half_height));
        proof {
            crate::fx::lemma_tdiv_bound(self.half_width as int * 65536, self.aspect_ratio as int);
        }
        Ok(
            Camera {
                lens: self.lens,
                u,
                v,
                n,
                origin: self.at,
                left_bottom,
                half_width: self.half_width,
                half_height,
            },
        )
    }
}

impl Camera {
    /// The world ray of one (pixel sample, lens sample) pair, with subject
    /// distance `s`.
    ///
    /// The direction is the safe unit vector toward the refraction
    /// destination: it is zero exactly when that destination coincides with
    /// the aperture point (a degenerate pixel); the render loop's contract
    /// states that such a sample is skipped and contributes black.
    pub fn gen_ray(&self, pixel: &Vector2, lens: &Vector2, s: i64) -> (r: Ray)
        requires
            camera_wf(*self),
            0 <= pixel.x <= 2 * CMAX,
            0 <= pixel.y <= 2 * CMAX,
            0 <= lens.x <= SCALE,
            0 <= lens.y <= SCALE,
            -VMAX <= s <= VMAX,
        ensures
            r == ray_at(
                lens_point_spec(*self, lens.x as int, lens.y as int),
                gen_dir_spec(
                    *self,
                    pixel.x as int,
                    pixel.y as int,
                    lens.x as int,
                    lens.y as int,
                    s as int,
                ),
            ),
            r.origin == lens_point_spec(*self, lens.x as int, lens.y as int),
            r.direction == gen_dir_spec(
                *self,
                pixel.x as int,
                pixel.y as int,
                lens.x as int,
                lens.y as int,
                s as int,
            ),
            in_range(r.origin, WMAX as int),
            len2_wide(r.direction) > 0 ==> in_range(r.direction, SCALE as int),
            r.neg[0] == (r.direction.x < 0),
            r.neg[1] == (r.direction.y < 0),
            r.neg[2] == (r.direction.z < 0),
    {
        proof {
            lemma_mul_fx_range(self.u.x as int, pixel.x as int, 0x20000, 0x2000000);
            lemma_mul_fx_range(self.u.y as int, pixel.x as int, 0x20000, 0x2000000);
            lemma_mul_fx_range(self.u.z as int, pixel.x as int, 0x20000, 0x2000000);
            lemma_mul_fx_range(self.v.x as int, pixel.y as int, 0x40000, 0x2000000);
            lemma_mul_fx_range(self.v.y as int, pixel.y as int, 0x40000, 0x2000000);
            lemma_mul_fx_range(self.v.z as int, pixel.y as int, 0x40000, 0x2000000);
            lemma_mul_fx_range(lens.x as int, self.lens.radius as int, 0x10000, 0x1000000);
            lemma_mul_fx_range(lens.y as int, self.lens.radius as int, 0x10000, 0x1000000);
        }
        let pos = self.left_bottom.add(&self.u.scale(pixel.x)).add(&self.v.scale(pixel.y));
        let ux = mul_fx(lens.x, self.lens.radius);
        let uy = mul_fx(lens.y, self.lens.radius);
        proof {
            lemma_mul_fx_range(self.u.x as int, ux as int, 0x20000, 0x1000000);
            lemma_mul_fx_range(self.u.y as int, ux as int, 0x20000, 0x1000000);
            lemma_mul_fx_range(self.u.z as int, ux as int, 0x20000, 0x1000000);
            lemma_mul_fx_range(self.v.x as int, uy as int, 0x40000, 0x1000000);
            lemma_mul_fx_range(self.v.y as int, uy as int, 0x40000, 0x1000000);
            lemma_mul_fx_range(self.v.z as int, uy as int, 0x40000, 0x1000000);
        }
        let lens_pos = self.u.scale(ux).add(&self.v.scale(uy)).add(&self.lens.center);
        let base = RayBuilder { origin: pos, direction: lens_pos.sub(&pos).unit_safe() }.build();
        self.lens.refract(&base, lens_pos, s)
    }
}

/// With a lens radius of zero the camera is a pinhole: the generated ray does
/// not depend on the lens sample, so any two lens samples for one pixel give
/// the same ray (and in particular rays meeting the focal plane at the same
/// point).
pub proof fn lemma_pinhole_rays_converge(
    cam: Camera,
    pixel: Vector2,
    l1: Vector2,
    l2: Vector2,
    s: i64,
)
    requires
        cam.lens.radius == 0,
    ensures
        lens_point_spec(cam, l1.x as int, l1.y as int) == lens_point_spec(
            cam,
            l2.x as int,
            l2.y as int,
        ),
        gen_dir_spec(cam, pixel.x as int, pixel.y as int, l1.x as int, l1.y as int, s as int)
            == gen_dir_spec(
            cam,
            pixel.x as int,
            pixel.y as int,
            l2.x as int,
            l2.y as int,
            s as int,
        ),
{
    assert(mul_fx_spec(l1.x as int, 0) == 0);
    assert(mul_fx_spec(l1.y as int, 0) == 0);
    assert(mul_fx_spec(l2.x as int, 0) == 0);
    assert(mul_fx_spec(l2.y as int, 0) == 0);
    assert(vscale_spec(cam.u, 0) == vscale_spec(cam.u, mul_fx_spec(l1.x as int, 0)));
}

} // verus!
