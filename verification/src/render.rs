//! The per-pixel rendering loop.
//!
//! For every output pixel, `render` draws stratified pixel jitter and
//! Latin-hypercube lens samples, pairs them by index, draws one time fraction
//! per pair for motion blur, casts the camera ray, keeps the nearest hit over
//! the whole scene, evaluates that shape's texture, and averages.  The output
//! is a row-major grid of RGB byte triples; a pixel whose rays all miss is
//! black.
//!
//! The drawn samples are random, so the contract of `render` says what holds
//! of every outcome: each pixel's bytes equal `pixel_bytes_spec` — the exact
//! fold of ray generation, nearest hit, texture lookup, averaging and byte
//! conversion — for *some* sample sequences with the stratified, Latin-
//! hypercube and unit-time shapes the samplers guarantee.
use crate::camera::{camera_wf, gen_dir_spec, lens_point_spec, Camera};
use crate::fx::{mul_fx_spec, sqrt_floor, tdiv, SCALE};
use crate::rgb::{byte_of_channel, rgb_in_range, Rgb};
use crate::sample::{band_covered_x, band_covered_y, in_band, in_unit_square, jitter,
    next_fraction, nrooks};
use crate::shapes::{ray_at, ray_point_spec, shape_hit_some, shape_hit_t, texed_wf,
    translation_at_spec, HitRecord, Ray, TexedShape};
use crate::texture::texture_value_spec;
use crate::vectors::{in_range, len2_wide, Vector2, Vector3, VMAX, WMAX};
use vstd::arithmetic::div_mod::lemma_fundamental_div_mod_converse;
use vstd::prelude::*;

verus! {

/// Output size and sampling parameters of one render.
#[derive(Debug, Clone, Copy, PartialEq, Eq, Structural)]
pub struct RenderConfig {
    pub width: u32,
    pub height: u32,
    pub samples: u32,
    pub tmin: i64,
    pub tmax: i64,
    /// Subject distance handed to the thin lens.
    pub subject_distance: i64,
}

/// The bounds under which a configuration can be rendered.
pub open spec fn config_wf(cfg: RenderConfig) -> bool {
    &&& 1 <= cfg.width <= 0x4000
    &&& 1 <= cfg.height <= 0x4000
    &&& 1 <= cfg.samples <= 0x10000
    &&& -0x2000000000 <= cfg.tmin <= 0x2000000000
    &&& -0x2000000000 <= cfg.tmax <= 0x2000000000
    &&& -VMAX <= cfg.subject_distance <= VMAX
}

/// The bounds under which every shape of a scene can be rendered.
pub open spec fn scene_wf(scene: Seq<TexedShape>) -> bool {
    forall|i: int| 0 <= i < scene.len() ==> texed_wf(#[trigger] scene[i])
}

/// What `jitter` guarantees of a drawn pixel-sample sequence: one point per
/// cell of the `w x w` grid, `w` the floor square root of the sample count.
pub open spec fn jittered(ps: Seq<Vector2>, samples: u32) -> bool {
    let w = sqrt_floor(samples as nat) as int;
    &&& ps.len() == sqrt_floor(samples as nat) * sqrt_floor(samples as nat)
    &&& (forall|k: int| 0 <= k < ps.len() ==> in_unit_square(#[trigger] ps[k]))
    &&& (forall|k: int|
        0 <= k < ps.len() ==> in_band((#[trigger] ps[k]).x as int, k / w, w) && in_band(
            ps[k].y as int,
            k % w,
            w,
        ))
}

/// What `nrooks` guarantees of a drawn lens-sample sequence: one x and one y
/// coordinate in each of the `samples` bands.
pub open spec fn rooked(ls: Seq<Vector2>, samples: u32) -> bool {
    &&& ls.len() == samples
    &&& (forall|k: int| 0 <= k < ls.len() ==> in_unit_square(#[trigger] ls[k]))
    &&& (forall|b: int| 0 <= b < samples ==> #[trigger] band_covered_x(ls, b, samples as int))
    &&& (forall|b: int| 0 <= b < samples ==> #[trigger] band_covered_y(ls, b, samples as int))
}

/// What the per-sample time draws guarantee: fractions of the exposure.
pub open spec fn times_in_unit(ts: Seq<i64>) -> bool {
    forall|k: int| 0 <= k < ts.len() ==> 0 <= #[trigger] ts[k] < 65536
}

/// The index of the nearest hit shape among the first `n` of the scene
/// (lowest ray parameter; ties keep the earlier shape), or nothing when none
/// of them is hit.
pub open spec fn nearest_in_prefix(
    scene: Seq<TexedShape>,
    ray: Ray,
    tmin: int,
    tmax: int,
    time: int,
    n: int,
) -> Option<int>
    decreases n,
{
    if n <= 0 {
        Option::None
    } else {
        let prev = nearest_in_prefix(scene, ray, tmin, tmax, time, n - 1);
        let i = n - 1;
        let tr = translation_at_spec(scene[i], time);
        if shape_hit_some(scene[i].shape, ray, tmin, tmax, tr) {
            match prev {
                Option::None => Option::Some(i),
                Option::Some(j) => {
                    if shape_hit_t(scene[i].shape, ray, tmin, tr) < shape_hit_t(
                        scene[j].shape,
                        ray,
                        tmin,
                        translation_at_spec(scene[j], time),
                    ) {
                        Option::Some(i)
                    } else {
                        Option::Some(j)
                    }
                },
            }
        } else {
            prev
        }
    }
}

/// The index of the globally nearest hit shape, or nothing on a full miss.
pub open spec fn nearest_shape(
    scene: Seq<TexedShape>,
    ray: Ray,
    tmin: int,
    tmax: int,
    time: int,
) -> Option<int> {
    nearest_in_prefix(scene, ray, tmin, tmax, time, scene.len() as int)
}

/// The color one sample pair contributes to its pixel: the nearest hit
/// shape's texture at the hit point, black on a full miss, and black when
/// the generated direction degenerates (zero, or outside the unit range) —
/// such a sample is skipped.
pub open spec fn sample_color_spec(
    scene: Seq<TexedShape>,
    cam: Camera,
    cfg: RenderConfig,
    px: int,
    py: int,
    p: Vector2,
    l: Vector2,
    time: int,
) -> Rgb {
    let sx = (px * 65536 + p.x) / (cfg.width as int);
    let sy = (py * 65536 + p.y) / (cfg.height as int);
    let vx = mul_fx_spec(sx, 2 * cam.half_width as int);
    let vy = mul_fx_spec(sy, 2 * cam.half_height as int);
    let o = lens_point_spec(cam, l.x as int, l.y as int);
    let d = gen_dir_spec(cam, vx, vy, l.x as int, l.y as int, cfg.subject_distance as int);
    if in_range(d, SCALE as int) && !(d.x == 0 && d.y == 0 && d.z == 0) {
        match nearest_shape(scene, ray_at(o, d), cfg.tmin as int, cfg.tmax as int, time) {
            Option::Some(i) => {
                let tr = translation_at_spec(scene[i], time);
                let t = shape_hit_t(scene[i].shape, ray_at(o, d), cfg.tmin as int, tr);
                texture_value_spec(
                    scene[i].texture,
                    ray_point_spec(ray_at(o, d), t),
                    Vector2 { x: 0i64, y: 0i64 },
                )
            },
            Option::None => Rgb { r: 0i64, g: 0i64, b: 0i64 },
        }
    } else {
        Rgb { r: 0i64, g: 0i64, b: 0i64 }
    }
}

/// The channelwise sum of the first `k` sample colors of a pixel.
pub open spec fn accum_spec(
    scene: Seq<TexedShape>,
    cam: Camera,
    cfg: RenderConfig,
    px: int,
    py: int,
    ps: Seq<Vector2>,
    ls: Seq<Vector2>,
    ts: Seq<i64>,
    k: int,
) -> Rgb
    decreases k,
{
    if k <= 0 {
        Rgb { r: 0i64, g: 0i64, b: 0i64 }
    } else {
        let prev = accum_spec(scene, cam, cfg, px, py, ps, ls, ts, k - 1);
        let c = sample_color_spec(scene, cam, cfg, px, py, ps[k - 1], ls[k - 1], ts[k - 1] as int);
        Rgb { r: (prev.r + c.r) as i64, g: (prev.g + c.g) as i64, b: (prev.b + c.b) as i64 }
    }
}

/// How many sample pairs two drawn sequences yield (paired by index).
pub open spec fn sample_pairs(ps: Seq<Vector2>, ls: Seq<Vector2>) -> int {
    if ps.len() < ls.len() {
        ps.len() as int
    } else {
        ls.len() as int
    }
}

/// The byte triple of one pixel: the sample colors summed, averaged by the
/// pair count, and converted channelwise to clamped, truncated bytes; black
/// when there are no pairs.
pub open spec fn pixel_bytes_spec(
    scene: Seq<TexedShape>,
    cam: Camera,
    cfg: RenderConfig,
    px: int,
    py: int,
    ps: Seq<Vector2>,
    ls: Seq<Vector2>,
    ts: Seq<i64>,
) -> (int, int, int) {
    let n = sample_pairs(ps, ls);
    if n == 0 {
        (0, 0, 0)
    } else {
        let sum = accum_spec(scene, cam, cfg, px, py, ps, ls, ts, n);
        (
            byte_of_channel(tdiv(sum.r as int, n)),
            byte_of_channel(tdiv(sum.g as int, n)),
            byte_of_channel(tdiv(sum.b as int, n)),
        )
    }
}

/// Whether a pixel's bytes are the exact trace of some admissible sample
/// draw: stratified pixel jitter, Latin-hypercube lens samples, and one time
/// fraction per pair.
pub open spec fn pixel_traced(
    scene: Seq<TexedShape>,
    cam: Camera,
    cfg: RenderConfig,
    px: int,
    py: int,
    r: int,
    g: int,
    b: int,
) -> bool {
    exists|ps: Seq<Vector2>, ls: Seq<Vector2>, ts: Seq<i64>|
        jittered(ps, cfg.samples) && rooked(ls, cfg.samples) && times_in_unit(ts) && ts.len()
            == sample_pairs(ps, ls) && (r, g, b) == #[trigger] pixel_bytes_spec(
            scene,
            cam,
            cfg,
            px,
            py,
            ps,
            ls,
            ts,
        )
}

/// `accum_spec` reads only the first `k` time draws.
proof fn lemma_accum_prefix(
    scene: Seq<TexedShape>,
    cam: Camera,
    cfg: RenderConfig,
    px: int,
    py: int,
    ps: Seq<Vector2>,
    ls: Seq<Vector2>,
    ts1: Seq<i64>,
    ts2: Seq<i64>,
    k: int,
)
    requires
        forall|j: int| 0 <= j < k ==> ts1[j] == ts2[j],
    ensures
        accum_spec(scene, cam, cfg, px, py, ps, ls, ts1, k) == accum_spec(
            scene,
            cam,
            cfg,
            px,
            py,
            ps,
            ls,
            ts2,
            k,
        ),
    decreases k,
{
    if k > 0 {
        lemma_accum_prefix(scene, cam, cfg, px, py, ps, ls, ts1, ts2, k - 1);
    }
}

/// The globally nearest intersection over the scene: the hit with the lowest
/// ray parameter; a tie keeps the shape with the smaller index
/// (`nearest_shape` fixes that choice exactly).
pub fn nearest_hit(scene: &Vec<TexedShape>, ray: &Ray, tmin: i64, tmax: i64, time: i64) -> (res:
    Option<(usize, HitRecord)>)
    requires
        scene_wf(scene@),
        in_range(ray.origin, WMAX as int),
        in_range(ray.direction, SCALE as int),
        len2_wide(ray.direction) > 0,
        -0x2000000000 <= tmin <= 0x2000000000,
        -0x2000000000 <= tmax <= 0x2000000000,
        0 <= time <= SCALE,
    ensures
        ({
            &&& (res is None <==> nearest_shape(scene@, *ray, tmin as int, tmax as int, time as int)
                is None)
            &&& (res is None ==> forall|j: int|
                0 <= j < scene@.len() ==> !shape_hit_some(
                    (#[trigger] scene@[j]).shape,
                    *ray,
                    tmin as int,
                    tmax as int,
                    translation_at_spec(scene@[j], time as int),
                ))
            &&& (res matches Some((i, rec)) ==> {
                &&& Option::Some(i as int) == nearest_shape(
                    scene@,
                    *ray,
                    tmin as int,
                    tmax as int,
                    time as int,
                )
                &&& i < scene@.len()
                &&& shape_hit_some(
                    scene@[i as int].shape,
                    *ray,
                    tmin as int,
                    tmax as int,
                    translation_at_spec(scene@[i as int], time as int),
                )
                &&& rec.t == shape_hit_t(
                    scene@[i as int].shape,
                    *ray,
                    tmin as int,
                    translation_at_spec(scene@[i as int], time as int),
                )
                &&& tmin <= rec.t <= tmax
                &&& rec.pos == ray_point_spec(*ray, rec.t as int)
                &&& in_range(rec.pos, VMAX as int)
                &&& forall|j: int|
                    0 <= j < scene@.len() && shape_hit_some(
                        (#[trigger] scene@[j]).shape,
                        *ray,
                        tmin as int,
                        tmax as int,
                        translation_at_spec(scene@[j], time as int),
                    ) ==> shape_hit_t(
                        scene@[j].shape,
                        *ray,
                        tmin as int,
                        translation_at_spec(scene@[j], time as int),
                    ) >= rec.t
            })
        }),
{
    let mut best: Option<(usize, HitRecord)> = None;
    let mut i: usize = 0;
    while i < scene.len()
        invariant
            scene_wf(scene@),
            in_range(ray.origin, WMAX as int),
            in_range(ray.direction, SCALE as int),
            len2_wide(ray.direction) > 0,
            -0x2000000000 <= tmin <= 0x2000000000,
            -0x2000000000 <= tmax <= 0x2000000000,
            0 <= time <= SCALE,
            i <= scene@.len(),
            best is None ==> nearest_in_prefix(
                scene@,
                *ray,
                tmin as int,
                tmax as int,
                time as int,
                i as int,
            ) is None,
            best is None ==> forall|j: int|
                0 <= j < i ==> !shape_hit_some(
                    (#[trigger] scene@[j]).shape,
                    *ray,
                    tmin as int,
                    tmax as int,
                    translation_at_spec(scene@[j], time as int),
                ),
            best matches Some((bi, brec)) ==> {
                &&& nearest_in_prefix(scene@, *ray, tmin as int, tmax as int, time as int, i as int)
                    == Option::Some(bi as int)
                &&& bi < i
                &&& shape_hit_some(
                    scene@[bi as int].shape,
                    *ray,
                    tmin as int,
                    tmax as int,
                    translation_at_spec(scene@[bi as int], time as int),
                )
                &&& brec.t == shape_hit_t(
                    scene@[bi as int].shape,
                    *ray,
                    tmin as int,
                    translation_at_spec(scene@[bi as int], time as int),
                )
                &&& tmin <= brec.t <= tmax
                &&& brec.pos == ray_point_spec(*ray, brec.t as int)
                &&& in_range(brec.pos, VMAX as int)
                &&& forall|j: int|
                    0 <= j < i && shape_hit_some(
                        (#[trigger] scene@[j]).shape,
                        *ray,
                        tmin as int,
                        tmax as int,
                        translation_at_spec(scene@[j], time as int),
                    ) ==> shape_hit_t(
                        scene@[j].shape,
                        *ray,
                        tmin as int,
                        translation_at_spec(scene@[j], time as int),
                    ) >= brec.t
            },
        decreases scene@.len() - i,
    {
        let ts = &scene[i];
        let cand = ts.hit(ray, tmin, tmax, time);
        match cand {
            Some(rec) => {
                let better = match &best {
                    Some((_, brec)) => rec.t < brec.t,
                    None => true,
                };
                if better {
                    best = Some((i, rec));
                }
            },
            None => {},
        }
        i = i + 1;
    }
    best
}

/// Render the scene: one RGB byte triple per pixel, row-major from the
/// bottom-left pixel.  Every pixel's bytes are the exact trace
/// (`pixel_traced`) of the samples drawn for it.
pub fn render(
    scene: &Vec<TexedShape>,
    camera: &Camera,
    cfg: &RenderConfig,
    rng: &mut rand::rngs::StdRng,
) -> (buf: Vec<u8>)
    requires
        scene_wf(scene@),
        camera_wf(*camera),
        config_wf(*cfg),
    ensures
        buf@.len() == 3 * cfg.width * cfg.height,
        forall|p: int|
            0 <= p < cfg.width * cfg.height ==> #[trigger] pixel_traced(
                scene@,
                *camera,
                *cfg,
                p % (cfg.width as int),
                p / (cfg.width as int),
                buf@[3 * p] as int,
                buf@[3 * p + 1] as int,
                buf@[3 * p + 2] as int,
            ),
{
    let mut buf: Vec<u8> = Vec::new();
    let mut py: u32 = 0;
    let mut pix: Vec<Vector2> = Vec::new();
    let mut lens: Vec<Vector2> = Vec::new();
    let w = cfg.width;
    while py < cfg.height
        invariant
            scene_wf(scene@),
            camera_wf(*camera),
            config_wf(*cfg),
            w == cfg.width,
            py <= cfg.height,
            buf@.len() == 3 * (w * py),
            forall|p: int|
                0 <= p < w * py ==> #[trigger] pixel_traced(
                    scene@,
                    *camera,
                    *cfg,
                    p % (w as int),
                    p / (w as int),
                    buf@[3 * p] as int,
                    buf@[3 * p + 1] as int,
                    buf@[3 * p + 2] as int,
                ),
        decreases cfg.height - py,
    {
        let mut px: u32 = 0;
        proof {
            crate::fx::lemma_mul_bound(w as int, py as int, 0x4000, 0x4000);
            crate::fx::lemma_mul_bound(w as int, py as int + 1, 0x4000, 0x4001);
        }
        while px < w
            invariant
                scene_wf(scene@),
                camera_wf(*camera),
                config_wf(*cfg),
                w == cfg.width,
                py < cfg.height,
                px <= w,
                w as int * py as int + w <= 0x10004000,
                buf@.len() == 3 * (w * py + px),
                forall|p: int|
                    0 <= p < w * py + px ==> #[trigger] pixel_traced(
                        scene@,
                        *camera,
                        *cfg,
                        p % (w as int),
                        p / (w as int),
                        buf@[3 * p] as int,
                        buf@[3 * p + 1] as int,
                        buf@[3 * p + 2] as int,
                    ),
            decreases w - px,
        {
            let ghost prev_buf = buf@;
            let (r, g, b) = render_pixel(scene, camera, cfg, rng, px, py, &mut pix, &mut lens);
            buf.push(r);
            buf.push(g);
            buf.push(b);
            proof {
                let wi = w as int;
                let painted = wi * py as int + px as int;
                assert(wi * py as int == py as int * wi) by (nonlinear_arith);
                lemma_fundamental_div_mod_converse(painted, wi, py as int, px as int);
                assert forall|p: int| 0 <= p < painted + 1 implies #[trigger] pixel_traced(
                    scene@,
                    *camera,
                    *cfg,
                    p % wi,
                    p / wi,
                    buf@[3 * p] as int,
                    buf@[3 * p + 1] as int,
                    buf@[3 * p + 2] as int,
                ) by {
                    if p < painted {
                        assert(pixel_traced(
                            scene@,
                            *camera,
                            *cfg,
                            p % wi,
                            p / wi,
                            prev_buf[3 * p] as int,
                            prev_buf[3 * p + 1] as int,
                            prev_buf[3 * p + 2] as int,
                        ));
                        assert(buf@[3 * p] == prev_buf[3 * p]);
                        assert(buf@[3 * p + 1] == prev_buf[3 * p + 1]);
                        assert(buf@[3 * p + 2] == prev_buf[3 * p + 2]);
                    } else {
                        assert(p == painted);
                        assert(buf@[3 * p] == r && buf@[3 * p + 1] == g && buf@[3 * p + 2] == b);
                        assert(pixel_traced(
                            scene@,
                            *camera,
                            *cfg,
                            px as int,
                            py as int,
                            r as int,
                            g as int,
                            b as int,
                        ));
                    }
                }
            }
            px = px + 1;
        }
        proof {
            assert(w as int * (py as int + 1) == w as int * py as int + w as int)
                by (nonlinear_arith);
        }
        py = py + 1;
    }
    proof {
        assert(w as int * cfg.height as int == cfg.width as int * cfg.height as int);
        assert(3 * (cfg.width * cfg.height) == 3 * cfg.width * cfg.height) by (nonlinear_arith);
    }
    buf
}

/// One pixel: pair pixel-jitter and lens samples by index, cast, accumulate,
/// average, and convert to bytes.  The returned bytes are exactly
/// `pixel_bytes_spec` of the drawn samples.
fn render_pixel(
    scene: &Vec<TexedShape>,
    camera: &Camera,
    cfg: &RenderConfig,
    rng: &mut rand::rngs::StdRng,
    px: u32,
    py: u32,
    pix: &mut Vec<Vector2>,
    lens: &mut Vec<Vector2>,
) -> (rgb: (u8, u8, u8))
    requires
        scene_wf(scene@),
        camera_wf(*camera),
        config_wf(*cfg),
        px < cfg.width,
        py < cfg.height,
    ensures
        pixel_traced(
            scene@,
            *camera,
            *cfg,
            px as int,
            py as int,
            rgb.0 as int,
            rgb.1 as int,
            rgb.2 as int,
        ),
{
    jitter(rng, pix, cfg.samples);
    nrooks(rng, lens, cfg.samples);
    let n: usize = if pix.len() < lens.len() {
        pix.len()
    } else {
        lens.len()
    };
    proof {
        assert(jittered(pix@, cfg.samples));
        assert(rooked(lens@, cfg.samples));
        assert(n as int == sample_pairs(pix@, lens@));
    }
    let mut sum = Rgb::black();
    let ghost mut times: Seq<i64> = Seq::empty();
    let mut k: usize = 0;
    while k < n
        invariant
            scene_wf(scene@),
            camera_wf(*camera),
            config_wf(*cfg),
            px < cfg.width,
            py < cfg.height,
            n <= pix@.len(),
            n <= lens@.len(),
            n <= 0x10000,
            k <= n,
            forall|m: int| 0 <= m < pix@.len() ==> in_unit_square(#[trigger] pix@[m]),
            forall|m: int| 0 <= m < lens@.len() ==> in_unit_square(#[trigger] lens@[m]),
            rgb_in_range(sum, k * 0x10000000000),
            times.len() == k,
            times_in_unit(times),
            sum == accum_spec(
                scene@,
                *camera,
                *cfg,
                px as int,
                py as int,
                pix@,
                lens@,
                times,
                k as int,
            ),
        decreases n - k,
    {
        let ghost times_before = times;
        let ghost sum_before = sum;
        let time = next_fraction(rng);
        proof {
            times = times.push(time);
        }
        let pj = pix[k];
        let lj = lens[k];
        let sx: i64 = ((px as i64) * 65536 + pj.x) / (cfg.width as i64);
        let sy: i64 = ((py as i64) * 65536 + pj.y) / (cfg.height as i64);
        proof {
            assert(0 <= sx < 65536 && 0 <= sy < 65536) by (nonlinear_arith)
                requires
                    cfg.width >= 1,
                    cfg.height >= 1,
                    0 <= pj.x < 65536,
                    0 <= pj.y < 65536,
                    0 <= px < cfg.width,
                    0 <= py < cfg.height,
                    sx == (px as int * 65536 + pj.x) / (cfg.width as int),
                    sy == (py as int * 65536 + pj.y) / (cfg.height as int),
            ;
            crate::fx::lemma_mul_fx_range(
                sx as int,
                2 * camera.half_width as int,
                0x10000,
                0x2000000,
            );
            crate::fx::lemma_mul_fx_range(
                sy as int,
                2 * camera.half_height as int,
                0x10000,
                0x2000000,
            );
            crate::fx::lemma_tdiv_bound(sx as int * (2 * camera.half_width as int), 65536);
            crate::fx::lemma_tdiv_bound(sy as int * (2 * camera.half_height as int), 65536);
        }
        let vx: i64 = crate::fx::mul_fx(sx, 2 * camera.half_width);
        let vy: i64 = crate::fx::mul_fx(sy, 2 * camera.half_height);
        let ray = camera.gen_ray(
            &Vector2 { x: vx, y: vy },
            &Vector2 { x: lj.x, y: lj.y },
            cfg.subject_distance,
        );
        let d = ray.direction;
        let valid: bool = -SCALE <= d.x && d.x <= SCALE && -SCALE <= d.y && d.y <= SCALE && -SCALE
            <= d.z && d.z <= SCALE && (d.x != 0 || d.y != 0 || d.z != 0);
        let ghost spec_color = sample_color_spec(
            scene@,
            *camera,
            *cfg,
            px as int,
            py as int,
            pj,
            lj,
            time as int,
        );
        if valid {
            proof {
                crate::vectors::lemma_len2_zero(d);
            }
            match nearest_hit(scene, &ray, cfg.tmin, cfg.tmax, time) {
                Some((i, rec)) => {
                    let color = scene[i].texture.get_value(&rec.pos, &Vector2 { x: 0, y: 0 });
                    proof {
                        assert(color == spec_color);
                    }
                    sum.add_assign(color);
                },
                None => {
                    proof {
                        assert(spec_color == (Rgb { r: 0i64, g: 0i64, b: 0i64 }));
                    }
                },
            }
        } else {
            proof {
                assert(spec_color == (Rgb { r: 0i64, g: 0i64, b: 0i64 }));
            }
        }
        k = k + 1;
        proof {
            assert(rgb_in_range(sum, k * 0x10000000000)) by (nonlinear_arith)
                requires
                    rgb_in_range(sum, (k - 1) * 0x10000000000 + 0x10000000000),
                    k >= 1,
            ;
            lemma_accum_prefix(
                scene@,
                *camera,
                *cfg,
                px as int,
                py as int,
                pix@,
                lens@,
                times_before,
                times,
                k as int - 1,
            );
            assert(times[k as int - 1] == time);
            assert(pix@[k as int - 1] == pj && lens@[k as int - 1] == lj);
            assert(sum == accum_spec(
                scene@,
                *camera,
                *cfg,
                px as int,
                py as int,
                pix@,
                lens@,
                times,
                k as int,
            ));
        }
    }
    if n == 0 {
        proof {
            assert(times_in_unit(times) && times.len() == 0);
            assert((0int, 0int, 0int) == pixel_bytes_spec(
                scene@,
                *camera,
                *cfg,
                px as int,
                py as int,
                pix@,
                lens@,
                times,
            ));
        }
        return (0, 0, 0);
    }
    proof {
        assert(sum.r <= 0x10000 * 0x10000000000 && sum.r >= -(0x10000 * 0x10000000000))
            by (nonlinear_arith)
            requires
                rgb_in_range(sum, n * 0x10000000000),
                n <= 0x10000,
        ;
        assert(sum.g <= 0x10000 * 0x10000000000 && sum.g >= -(0x10000 * 0x10000000000))
            by (nonlinear_arith)
            requires
                rgb_in_range(sum, n * 0x10000000000),
                n <= 0x10000,
        ;
        assert(sum.b <= 0x10000 * 0x10000000000 && sum.b >= -(0x10000 * 0x10000000000))
            by (nonlinear_arith)
            requires
                rgb_in_range(sum, n * 0x10000000000),
                n <= 0x10000,
        ;
    }
    let avg = sum.div_count(n as i64);
    let bytes = avg.to_bytes();
    proof {
        assert((bytes.0 as int, bytes.1 as int, bytes.2 as int) == pixel_bytes_spec(
            scene@,
            *camera,
            *cfg,
            px as int,
            py as int,
            pix@,
            lens@,
            times,
        ));
    }
    bytes
}

} // verus!
