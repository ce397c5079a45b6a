//! Surface color evaluation.
//!
//! A texture is one of a closed set: a constant color, a bilinear lookup in
//! an in-memory texel grid (out-of-range coordinates are clamped to the grid,
//! never indexed outside it), or a gradient-noise blend between two colors.
use crate::fx::{lemma_mul_bound, mul_fx_spec, SCALE};
use crate::noise::{noise, noise_spec};
use crate::rgb::{rgb_in_range, Rgb};
use crate::vectors::{in_range, Vector2, Vector3, VMAX};
use vstd::prelude::*;

verus! {

/// A constant color everywhere.
#[derive(Debug, Clone, Copy, PartialEq, Eq, Structural)]
pub struct PureColorTexture {
    pub color: Rgb,
}

/// A texel grid sampled bilinearly by texture coordinates in `[0, 1]`.
#[derive(Debug, Clone, PartialEq, Eq)]
pub struct ImageTexture {
    pub width: u32,
    pub height: u32,
    pub texels: Vec<Rgb>,
}

/// A blend from `start` to `end` driven by gradient noise of the scaled
/// position.
#[derive(Debug, Clone, Copy, PartialEq, Eq, Structural)]
pub struct NoiseTexture {
    pub start: Rgb,
    pub end: Rgb,
    pub scale: i64,
}

/// The closed set of textures a shape may carry.
#[derive(Debug, Clone, PartialEq, Eq)]
pub enum Texture {
    Pure(PureColorTexture),
    Image(ImageTexture),
    Noise(NoiseTexture),
}

/// A usable texel grid: row-major `width x height`, no zero extent, every
/// texel a displayable color.
pub open spec fn image_wf(t: ImageTexture) -> bool {
    &&& 1 <= t.width <= 0x10000
    &&& 1 <= t.height <= 0x10000
    &&& t.texels@.len() == t.width * t.height
    &&& forall|k: int| 0 <= k < t.texels@.len() ==> rgb_in_range(#[trigger] t.texels@[k], SCALE as int)
}

/// The bounds under which any texture can be evaluated.
pub open spec fn texture_wf(t: Texture) -> bool {
    match t {
        Texture::Pure(p) => rgb_in_range(p.color, SCALE as int),
        Texture::Image(img) => image_wf(img),
        Texture::Noise(n) => rgb_in_range(n.start, SCALE as int) && rgb_in_range(
            n.end,
            SCALE as int,
        ) && 0 <= n.scale <= VMAX,
    }
}

/// One texture coordinate clamped to `[0, 1]`.
pub open spec fn clamp_unit(v: int) -> int {
    if v < 0 {
        0
    } else if v > 65536 {
        65536
    } else {
        v
    }
}

/// An index clamped to `[0, n - 1]`.
pub open spec fn clamp_index(i: int, n: int) -> int {
    if i >= n {
        n - 1
    } else {
        i
    }
}

/// The texel a clamped coordinate pair addresses.
pub open spec fn texel_at(t: ImageTexture, ui: int, vi: int) -> Rgb {
    t.texels@[vi * t.width + ui]
}

/// Channelwise interpolation value.
pub open spec fn rgb_lerp_spec(t: int, a: Rgb, b: Rgb) -> Rgb {
    Rgb {
        r: (a.r + mul_fx_spec(b.r - a.r, t)) as i64,
        g: (a.g + mul_fx_spec(b.g - a.g, t)) as i64,
        b: (a.b + mul_fx_spec(b.b - a.b, t)) as i64,
    }
}

/// The bilinear image lookup: scale the clamped coordinates by the grid
/// extent, split into cell index and fraction, clamp the four neighbor
/// indices into the grid, and blend.
#[verifier::opaque]
pub open spec fn image_value_spec(t: ImageTexture, uv: Vector2) -> Rgb {
    let su = clamp_unit(uv.x as int) * t.width;
    let sv = clamp_unit(uv.y as int) * t.height;
    let ui = clamp_index(su / 65536, t.width as int);
    let vi = clamp_index(sv / 65536, t.height as int);
    let ud = su % 65536;
    let vd = sv % 65536;
    let ui1 = clamp_index(ui + 1, t.width as int);
    let vi1 = clamp_index(vi + 1, t.height as int);
    let a = texel_at(t, ui, vi);
    let b = texel_at(t, ui1, vi);
    let c = texel_at(t, ui, vi1);
    let d = texel_at(t, ui1, vi1);
    rgb_lerp_spec(vd, rgb_lerp_spec(ud, a, b), rgb_lerp_spec(ud, c, d))
}

/// The noise-texture value: a blend from `start` to `end` by the noise of
/// the scaled position.
pub open spec fn noise_value_spec(t: NoiseTexture, pos: Vector3) -> Rgb {
    let p = Vector3 {
        x: mul_fx_spec(pos.x as int, t.scale as int) as i64,
        y: mul_fx_spec(pos.y as int, t.scale as int) as i64,
        z: mul_fx_spec(pos.z as int, t.scale as int) as i64,
    };
    rgb_lerp_spec(noise_spec(p), t.start, t.end)
}

/// What any texture evaluates to at a hit position and texture coordinate.
pub open spec fn texture_value_spec(t: Texture, pos: Vector3, uv: Vector2) -> Rgb {
    match t {
        Texture::Pure(p) => p.color,
        Texture::Image(img) => image_value_spec(img, uv),
        Texture::Noise(n) => noise_value_spec(n, pos),
    }
}

impl ImageTexture {
    /// A texel grid from row-major colors; refused when the extents are
    /// unusable or do not match the texel count.
    pub fn new(width: u32, height: u32, texels: Vec<Rgb>) -> (r: Option<ImageTexture>)
        ensures
            ({
                let t = ImageTexture { width, height, texels };
                &&& (r is Some <==> image_wf(t))
                &&& (r matches Some(t2) ==> t2 == t)
            }),
    {
        if !(1 <= width && width <= 0x10000 && 1 <= height && height <= 0x10000) {
            return None;
        }
        proof {
            lemma_mul_bound(width as int, height as int, 0x10000, 0x10000);
        }
        let expect: u64 = (width as u64) * (height as u64);
        proof {
            assert(expect == width as int * height as int);
        }
        if (texels.len() as u64) != expect {
            return None;
        }
        let mut k: usize = 0;
        while k < texels.len()
            invariant
                k <= texels@.len(),
                forall|m: int| 0 <= m < k ==> rgb_in_range(#[trigger] texels@[m], SCALE as int),
            decreases texels@.len() - k,
        {
            let c = texels[k];
            if !(-SCALE <= c.r && c.r <= SCALE && -SCALE <= c.g && c.g <= SCALE && -SCALE <= c.b
                && c.b <= SCALE) {
                proof {
                    assert(!rgb_in_range(texels@[k as int], SCALE as int));
                }
                return None;
            }
            k = k + 1;
        }
        Some(ImageTexture { width, height, texels })
    }

    /// Bilinear lookup of the texel grid at (clamped) coordinates `uv`.
    pub fn get_value(&self, uv: &Vector2) -> (r: Rgb)
        requires
            image_wf(*self),
        ensures
            r == image_value_spec(*self, *uv),
            rgb_in_range(r, 40 * SCALE as int),
    {
        let (a, b, c, d, ud, vd) = self.texel_rect(uv);
        proof {
            crate::fx::lemma_mul_fx_range(b.r - a.r, ud as int, 0x20000, 0x10000);
            crate::fx::lemma_mul_fx_range(b.g - a.g, ud as int, 0x20000, 0x10000);
            crate::fx::lemma_mul_fx_range(b.b - a.b, ud as int, 0x20000, 0x10000);
            crate::fx::lemma_mul_fx_range(d.r - c.r, ud as int, 0x20000, 0x10000);
            crate::fx::lemma_mul_fx_range(d.g - c.g, ud as int, 0x20000, 0x10000);
            crate::fx::lemma_mul_fx_range(d.b - c.b, ud as int, 0x20000, 0x10000);
        }
        let ab = a.lerp(ud, &b);
        let cd = c.lerp(ud, &d);
        proof {
            assert(ab == rgb_lerp_spec(ud as int, a, b));
            assert(cd == rgb_lerp_spec(ud as int, c, d));
            crate::fx::lemma_mul_fx_range(cd.r - ab.r, vd as int, 0xc0000, 0x10000);
            crate::fx::lemma_mul_fx_range(cd.g - ab.g, vd as int, 0xc0000, 0x10000);
            crate::fx::lemma_mul_fx_range(cd.b - ab.b, vd as int, 0xc0000, 0x10000);
        }
        let res = ab.lerp(vd, &cd);
        proof {
            assert(res == rgb_lerp_spec(vd as int, ab, cd));
            assert(res == image_value_spec(*self, *uv)) by {
                reveal(image_value_spec);
            };
        }
        res
    }

    /// The four neighboring texels of a clamped coordinate pair, with the
    /// fractional offsets inside the addressed cell.
    #[verifier::rlimit(100)]
    fn texel_rect(&self, uv: &Vector2) -> (r: (Rgb, Rgb, Rgb, Rgb, i64, i64))
        requires
            image_wf(*self),
        ensures
            ({
                let t = *self;
                let su = clamp_unit(uv.x as int) * t.width;
                let sv = clamp_unit(uv.y as int) * t.height;
                let ui = clamp_index(su / 65536, t.width as int);
                let vi = clamp_index(sv / 65536, t.height as int);
                let ui1 = clamp_index(ui + 1, t.width as int);
                let vi1 = clamp_index(vi + 1, t.height as int);
                &&& r.0 == texel_at(t, ui, vi)
                &&& r.1 == texel_at(t, ui1, vi)
                &&& r.2 == texel_at(t, ui, vi1)
                &&& r.3 == texel_at(t, ui1, vi1)
                &&& r.4 == su % 65536
                &&& r.5 == sv % 65536
                &&& rgb_in_range(r.0, SCALE as int)
                &&& rgb_in_range(r.1, SCALE as int)
                &&& rgb_in_range(r.2, SCALE as int)
                &&& rgb_in_range(r.3, SCALE as int)
                &&& 0 <= r.4 < 65536
                &&& 0 <= r.5 < 65536
            }),
    {
        let cu: i64 = if uv.x < 0 {
            0
        } else if uv.x > SCALE {
            SCALE
        } else {
            uv.x
        };
        let cv: i64 = if uv.y < 0 {
            0
        } else if uv.y > SCALE {
            SCALE
        } else {
            uv.y
        };
        proof {
            lemma_mul_bound(cu as int, self.width as int, 65536, 65536);
            lemma_mul_bound(cv as int, self.height as int, 65536, 65536);
            lemma_mul_bound(self.width as int, self.height as int, 0x10000, 0x10000);
        }
        let su: i64 = cu * (self.width as i64);
        let sv: i64 = cv * (self.height as i64);
        proof {
            assert(0 <= su <= 65536 * (self.width as int) && 0 <= sv <= 65536 * (
            self.height as int)) by (nonlinear_arith)
                requires
                    0 <= cu <= 65536,
                    0 <= cv <= 65536,
                    1 <= self.width,
                    1 <= self.height,
                    su == cu * self.width,
                    sv == cv * self.height,
            ;
        }
        let ui0: i64 = su / 65536;
        let vi0: i64 = sv / 65536;
        let ud: i64 = su % 65536;
        let vd: i64 = sv % 65536;
        let w: i64 = self.width as i64;
        let h: i64 = self.height as i64;
        let ui: i64 = if ui0 >= w {
            w - 1
        } else {
            ui0
        };
        let vi: i64 = if vi0 >= h {
            h - 1
        } else {
            vi0
        };
        let ui1: i64 = if ui + 1 >= w {
            w - 1
        } else {
            ui + 1
        };
        let vi1: i64 = if vi + 1 >= h {
            h - 1
        } else {
            vi + 1
        };
        proof {
            lemma_mul_bound(vi as int, w as int, 65536, 65536);
            lemma_mul_bound(vi1 as int, w as int, 65536, 65536);
            assert(vi * w + ui < w * h && vi1 * w + ui < w * h && vi * w + ui1 < w * h && vi1 * w
                + ui1 < w * h) by (nonlinear_arith)
                requires
                    w >= 1,
                    h >= 1,
                    0 <= ui < w,
                    0 <= vi < h,
                    0 <= ui1 < w,
                    0 <= vi1 < h,
            ;
        }
        let a = self.texels[(vi * w + ui) as usize];
        let b = self.texels[(vi * w + ui1) as usize];
        let c = self.texels[(vi1 * w + ui) as usize];
        let d = self.texels[(vi1 * w + ui1) as usize];
        (a, b, c, d, ud, vd)
    }
}

impl Texture {
    /// The color this texture gives a hit at `pos` with texture coordinates
    /// `uv`.
    pub fn get_value(&self, pos: &Vector3, uv: &Vector2) -> (r: Rgb)
        requires
            texture_wf(*self),
            in_range(*pos, VMAX as int),
        ensures
            r == texture_value_spec(*self, *pos, *uv),
            rgb_in_range(r, 0x10000000000),
    {
        match self {
            Texture::Pure(p) => p.color,
            Texture::Image(img) => img.get_value(uv),
            Texture::Noise(n) => {
                proof {
                    crate::fx::lemma_mul_fx_range(pos.x as int, n.scale as int, 0x4000000000, 0x4000000000);
                    crate::fx::lemma_mul_fx_range(pos.y as int, n.scale as int, 0x4000000000, 0x4000000000);
                    crate::fx::lemma_mul_fx_range(pos.z as int, n.scale as int, 0x4000000000, 0x4000000000);
                }
                let sp = pos.scale(n.scale);
                let nv = noise(&sp);
                proof {
                    crate::fx::lemma_mul_fx_range(n.end.r - n.start.r, nv as int, 0x20000, 0x2000000000);
                    crate::fx::lemma_mul_fx_range(n.end.g - n.start.g, nv as int, 0x20000, 0x2000000000);
                    crate::fx::lemma_mul_fx_range(n.end.b - n.start.b, nv as int, 0x20000, 0x2000000000);
                }
                n.start.lerp(nv, &n.end)
            },
        }
    }
}

} // verus!
