//! Colors with fixed-point channels.
//!
//! A channel value of `SCALE` is full intensity.  Channels may exceed that
//! range while samples are being accumulated; `to_bytes` clamps before the
//! final 8-bit conversion, and the conversion truncates.
use crate::fx::{lemma_mul_bound, lemma_tdiv_bound, mul_fx, mul_fx_spec, tdiv, SCALE};
use crate::vectors::VMAX;
use vstd::prelude::*;

verus! {

#[derive(Debug, Clone, Copy, PartialEq, Eq, Structural)]
pub struct Rgb {
    pub r: i64,
    pub g: i64,
    pub b: i64,
}

/// All three channels within `[-m, m]`.
pub open spec fn rgb_in_range(c: Rgb, m: int) -> bool {
    &&& -m <= c.r <= m
    &&& -m <= c.g <= m
    &&& -m <= c.b <= m
}

/// A channel clamped to the displayable range `[0, SCALE]`.
pub open spec fn clip_channel(c: int) -> int {
    if c < 0 {
        0
    } else if c > SCALE {
        SCALE as int
    } else {
        c
    }
}

/// The 8-bit value of a channel: clamp to `[0, 1]`, scale by 255, truncate.
pub open spec fn byte_of_channel(c: int) -> int {
    clip_channel(c) * 255 / (SCALE as int)
}

impl Rgb {
    pub fn new(r: i64, g: i64, b: i64) -> (c: Rgb)
        ensures
            c == (Rgb { r, g, b }),
    {
        Rgb { r, g, b }
    }

    pub fn black() -> (c: Rgb)
        ensures
            c == (Rgb { r: 0i64, g: 0i64, b: 0i64 }),
    {
        Rgb { r: 0, g: 0, b: 0 }
    }

    pub fn white() -> (c: Rgb)
        ensures
            c == (Rgb { r: SCALE as i64, g: SCALE as i64, b: SCALE as i64 }),
    {
        Rgb { r: SCALE, g: SCALE, b: SCALE }
    }

    /// Channelwise sum.
    pub fn add(&self, rhs: &Rgb) -> (c: Rgb)
        requires
            rgb_in_range(*self, 0x3fffffffffffffff),
            rgb_in_range(*rhs, 0x3fffffffffffffff),
        ensures
            c.r == self.r + rhs.r,
            c.g == self.g + rhs.g,
            c.b == self.b + rhs.b,
    {
        Rgb { r: self.r + rhs.r, g: self.g + rhs.g, b: self.b + rhs.b }
    }

    /// Channelwise difference.
    pub fn sub(&self, rhs: &Rgb) -> (c: Rgb)
        requires
            rgb_in_range(*self, 0x3fffffffffffffff),
            rgb_in_range(*rhs, 0x3fffffffffffffff),
        ensures
            c.r == self.r - rhs.r,
            c.g == self.g - rhs.g,
            c.b == self.b - rhs.b,
    {
        Rgb { r: self.r - rhs.r, g: self.g - rhs.g, b: self.b - rhs.b }
    }

    /// Accumulate a sample into this color.
    pub fn add_assign(&mut self, rhs: Rgb)
        requires
            rgb_in_range(*old(self), 0x3fffffffffffffff),
            rgb_in_range(rhs, 0x3fffffffffffffff),
        ensures
            final (self).r == old(self).r + rhs.r,
            final (self).g == old(self).g + rhs.g,
            final (self).b == old(self).b + rhs.b,
    {
        self.r = self.r + rhs.r;
        self.g = self.g + rhs.g;
        self.b = self.b + rhs.b;
    }

    /// Channelwise product with a fixed-point scalar.
    pub fn scale(&self, s: i64) -> (c: Rgb)
        requires
            rgb_in_range(*self, VMAX as int),
            -VMAX <= s <= VMAX,
        ensures
            c.r == mul_fx_spec(self.r as int, s as int),
            c.g == mul_fx_spec(self.g as int, s as int),
            c.b == mul_fx_spec(self.b as int, s as int),
    {
        proof {
            lemma_mul_bound(self.r as int, s as int, VMAX as int, VMAX as int);
            lemma_mul_bound(self.g as int, s as int, VMAX as int, VMAX as int);
            lemma_mul_bound(self.b as int, s as int, VMAX as int, VMAX as int);
        }
        Rgb { r: mul_fx(self.r, s), g: mul_fx(self.g, s), b: mul_fx(self.b, s) }
    }

    /// Channelwise division by a positive count (used to average samples).
    pub fn div_count(&self, n: i64) -> (c: Rgb)
        requires
            n >= 1,
        ensures
            c.r == tdiv(self.r as int, n as int),
            c.g == tdiv(self.g as int, n as int),
            c.b == tdiv(self.b as int, n as int),
    {
        proof {
            lemma_tdiv_bound(self.r as int, n as int);
            lemma_tdiv_bound(self.g as int, n as int);
            lemma_tdiv_bound(self.b as int, n as int);
        }
        Rgb { r: self.r / n, g: self.g / n, b: self.b / n }
    }

    /// Channelwise linear interpolation toward `rhs`.
    pub fn lerp(&self, t: i64, rhs: &Rgb) -> (c: Rgb)
        requires
            rgb_in_range(*self, VMAX as int),
            rgb_in_range(*rhs, VMAX as int),
            -VMAX <= t <= VMAX,
        ensures
            c.r == self.r + mul_fx_spec(rhs.r - self.r, t as int),
            c.g == self.g + mul_fx_spec(rhs.g - self.g, t as int),
            c.b == self.b + mul_fx_spec(rhs.b - self.b, t as int),
    {
        proof {
            lemma_mul_bound(rhs.r - self.r, t as int, 2 * VMAX as int, VMAX as int);
            lemma_mul_bound(rhs.g - self.g, t as int, 2 * VMAX as int, VMAX as int);
            lemma_mul_bound(rhs.b - self.b, t as int, 2 * VMAX as int, VMAX as int);
            lemma_tdiv_bound((rhs.r - self.r) * t, SCALE as int);
            lemma_tdiv_bound((rhs.g - self.g) * t, SCALE as int);
            lemma_tdiv_bound((rhs.b - self.b) * t, SCALE as int);
        }
        Rgb {
            r: self.r + mul_fx(rhs.r - self.r, t),
            g: self.g + mul_fx(rhs.g - self.g, t),
            b: self.b + mul_fx(rhs.b - self.b, t),
        }
    }

    /// The displayable 8-bit triple of this color.
    ///
    /// The conversion truncates, so a channel one raw step below a byte
    /// boundary lands on the lower byte.  A decimal like one fifth has no
    /// exact 16-bit representation: its round-to-nearest value (13107)
    /// gives byte 50, while the smallest representation not below it
    /// (13108) gives 51, matching the upward rounding of the nearest 32-bit
    /// float.  Callers choose the representation when they build the color.
    pub fn to_bytes(&self) -> (bytes: (u8, u8, u8))
        ensures
            bytes.0 == byte_of_channel(self.r as int),
            bytes.1 == byte_of_channel(self.g as int),
            bytes.2 == byte_of_channel(self.b as int),
    {
        (channel_byte(self.r), channel_byte(self.g), channel_byte(self.b))
    }

    /// A color from an 8-bit triple: each channel is `v / 255` in fixed
    /// point, truncated.
    pub fn from_bytes(r: u8, g: u8, b: u8) -> (c: Rgb)
        ensures
            c.r == r as int * SCALE / 255,
            c.g == g as int * SCALE / 255,
            c.b == b as int * SCALE / 255,
            rgb_in_range(c, SCALE as int),
    {
        Rgb {
            r: r as i64 * SCALE / 255,
            g: g as i64 * SCALE / 255,
            b: b as i64 * SCALE / 255,
        }
    }
}

impl Default for Rgb {
    /// The default color is black.
    fn default() -> (c: Rgb)
        ensures
            c == (Rgb { r: 0i64, g: 0i64, b: 0i64 }),
    {
        Rgb { r: 0, g: 0, b: 0 }
    }
}

/// One channel of `to_bytes`.
fn channel_byte(c: i64) -> (v: u8)
    ensures
        v == byte_of_channel(c as int),
{
    let clipped: i64 = if c < 0 {
        0
    } else if c > SCALE {
        SCALE
    } else {
        c
    };
    let wide: i64 = clipped * 255;
    (wide / SCALE) as u8
}

} // verus!
