//! Classic gradient (Perlin) noise over fixed-point coordinates.
//!
//! The 256-entry permutation table is written out twice (512 entries), the
//! fade curve is `6t^5 - 15t^4 + 10t^3` evaluated stepwise in fixed point,
//! and the eight lattice-corner pseudo-gradient products are blended
//! trilinearly.  Lattice coordinates are hashed through the table with
//! wrapping 32-bit sums; negative coordinates saturate to lattice cell zero.
//! `noise` is a pure function of its argument: its result equals
//! `noise_spec`, so equal inputs always give equal outputs.
use crate::fx::{abs1, lemma_mul_fx_range, mul_fx, mul_fx_spec, tdiv, SCALE};
use crate::vectors::{in_range, Vector3, LMAX};
use vstd::prelude::*;

verus! {

pub const PERMUTATIONS: [u8; 512] = [
    151, 160, 137, 91, 90, 15, 131, 13, 201, 95, 96, 53, 194, 233, 7, 225, 140, 36, 103, 30, 69,
    142, 8, 99, 37, 240, 21, 10, 23, 190, 6, 148, 247, 120, 234, 75, 0, 26, 197, 62, 94, 252, 219,
    203, 117, 35, 11, 32, 57, 177, 33, 88, 237, 149, 56, 87, 174, 20, 125, 136, 171, 168, 68, 175,
    74, 165, 71, 134, 139, 48, 27, 166, 77, 146, 158, 231, 83, 111, 229, 122, 60, 211, 133, 230,
    220, 105, 92, 41, 55, 46, 245, 40, 244, 102, 143, 54, 65, 25, 63, 161, 1, 216, 80, 73, 209, 76,
    132, 187, 208, 89, 18, 169, 200, 196, 135, 130, 116, 188, 159, 86, 164, 100, 109, 198, 173,
    186, 3, 64, 52, 217, 226, 250, 124, 123, 5, 202, 38, 147, 118, 126, 255, 82, 85, 212, 207, 206,
    59, 227, 47, 16, 58, 17, 182, 189, 28, 42, 223, 183, 170, 213, 119, 248, 152, 2, 44, 154, 163,
    70, 221, 153, 101, 155, 167, 43, 172, 9, 129, 22, 39, 253, 19, 98, 108, 110, 79, 113, 224, 232,
    178, 185, 112, 104, 218, 246, 97, 228, 251, 34, 242, 193, 238, 210, 144, 12, 191, 179, 162,
    241, 81, 51, 145, 235, 249, 14, 239, 107, 49, 192, 214, 31, 181, 199, 106, 157, 184, 84, 204,
    176, 115, 121, 50, 45, 127, 4, 150, 254, 138, 236, 205, 93, 222, 114, 67, 29, 24, 72, 243, 141,
    128, 195, 78, 66, 215, 61, 156, 180, 151, 160, 137, 91, 90, 15, 131, 13, 201, 95, 96, 53, 194,
    233, 7, 225, 140, 36, 103, 30, 69, 142, 8, 99, 37, 240, 21, 10, 23, 190, 6, 148, 247, 120, 234,
    75, 0, 26, 197, 62, 94, 252, 219, 203, 117, 35, 11, 32, 57, 177, 33, 88, 237, 149, 56, 87, 174,
    20, 125, 136, 171, 168, 68, 175, 74, 165, 71, 134, 139, 48, 27, 166, 77, 146, 158, 231, 83,
    111, 229, 122, 60, 211, 133, 230, 220, 105, 92, 41, 55, 46, 245, 40, 244, 102, 143, 54, 65, 25,
    63, 161, 1, 216, 80, 73, 209, 76, 132, 187, 208, 89, 18, 169, 200, 196, 135, 130, 116, 188,
    159, 86, 164, 100, 109, 198, 173, 186, 3, 64, 52, 217, 226, 250, 124, 123, 5, 202, 38, 147,
    118, 126, 255, 82, 85, 212, 207, 206, 59, 227, 47, 16, 58, 17, 182, 189, 28, 42, 223, 183, 170,
    213, 119, 248, 152, 2, 44, 154, 163, 70, 221, 153, 101, 155, 167, 43, 172, 9, 129, 22, 39, 253,
    19, 98, 108, 110, 79, 113, 224, 232, 178, 185, 112, 104, 218, 246, 97, 228, 251, 34, 242, 193,
    238, 210, 144, 12, 191, 179, 162, 241, 81, 51, 145, 235, 249, 14, 239, 107, 49, 192, 214, 31,
    181, 199, 106, 157, 184, 84, 204, 176, 115, 121, 50, 45, 127, 4, 150, 254, 138, 236, 205, 93,
    222, 114, 67, 29, 24, 72, 243, 141, 128, 195, 78, 66, 215, 61, 156, 180,
];

/// The permutation table entry at `i`, as a mathematical integer.
#[verifier::opaque]
pub open spec fn perm_i(i: int) -> int {
    PERMUTATIONS[i] as int
}

/// The table value hashed for an (unbounded) lattice coordinate.
pub open spec fn hash_i(x: int) -> int {
    perm_i(x % 256)
}

/// A 32-bit wrapping sum.
pub open spec fn wadd_spec(a: int, b: int) -> int {
    (a + b) % 0x100000000
}

/// A lattice index saturated into 32 bits.
pub open spec fn sat_u32(i: int) -> int {
    if i < 0 {
        0
    } else if i > 0xffffffff {
        0xffffffff
    } else {
        i
    }
}

/// The fade curve `6 t^5 - 15 t^4 + 10 t^3`, evaluated stepwise in fixed
/// point.
pub open spec fn fade_spec(t: int) -> int {
    let a = mul_fx_spec(t, 6 * 65536int) - 15 * 65536;
    let b = mul_fx_spec(t, a) + 10 * 65536;
    let d = mul_fx_spec(mul_fx_spec(t, t), t);
    mul_fx_spec(d, b)
}

/// The pseudo-gradient product for hash class `h & 15`: a signed sum of two
/// of the three cell offsets.
pub open spec fn fake_dot_spec(h: int, x: int, y: int, z: int) -> int {
    let k = h % 16;
    if k == 0 {
        x + y
    } else if k == 1 {
        -x + y
    } else if k == 2 {
        x - y
    } else if k == 3 {
        -x - y
    } else if k == 4 {
        x + z
    } else if k == 5 {
        -x + z
    } else if k == 6 {
        x - z
    } else if k == 7 {
        -x - z
    } else if k == 8 {
        y + z
    } else if k == 9 {
        -y + z
    } else if k == 10 {
        y - z
    } else if k == 11 {
        -y - z
    } else if k == 12 {
        y + x
    } else if k == 13 {
        -y + z
    } else if k == 14 {
        y - x
    } else {
        -y - z
    }
}

/// Linear interpolation `a + (b - a) * t` over fixed-point scalars.
pub open spec fn lerp_spec(t: int, a: int, b: int) -> int {
    a + mul_fx_spec(b - a, t)
}

/// The gradient product of one lattice corner: corner hash `n`, offset by the
/// z lattice index, hashed once more, applied to the cell offsets.
pub open spec fn corner_spec(n: int, zi: int, x: int, y: int, z: int) -> int {
    fake_dot_spec(hash_i(wadd_spec(n, zi)), x, y, z)
}

/// The value of `noise` as a function of its input alone.
pub open spec fn noise_spec(p: Vector3) -> int {
    let xi = sat_u32(p.x as int / 65536);
    let yi = sat_u32(p.y as int / 65536);
    let zi = sat_u32(p.z as int / 65536);
    let xf = p.x as int % 65536;
    let yf = p.y as int % 65536;
    let zf = p.z as int % 65536;
    let u = fade_spec(xf);
    let v = fade_spec(yf);
    let w = fade_spec(zf);
    let a = hash_i(xi);
    let b = hash_i(wadd_spec(xi, 1));
    let c = hash_i(wadd_spec(a, yi));
    let d = hash_i(wadd_spec(wadd_spec(a, yi), 1));
    let e = hash_i(wadd_spec(b, yi));
    let f = hash_i(wadd_spec(wadd_spec(b, yi), 1));
    let x1 = lerp_spec(u, corner_spec(c, zi, xf, yf, zf), corner_spec(e, zi, xf - 65536, yf, zf));
    let x2 = lerp_spec(
        u,
        corner_spec(d, zi, xf, yf - 65536, zf),
        corner_spec(f, zi, xf - 65536, yf - 65536, zf),
    );
    let x3 = lerp_spec(
        u,
        corner_spec(wadd_spec(c, 1), zi, xf, yf, zf - 65536),
        corner_spec(wadd_spec(e, 1), zi, xf - 65536, yf, zf - 65536),
    );
    let x4 = lerp_spec(
        u,
        corner_spec(wadd_spec(d, 1), zi, xf, yf - 65536, zf - 65536),
        corner_spec(wadd_spec(f, 1), zi, xf - 65536, yf - 65536, zf - 65536),
    );
    tdiv(lerp_spec(w, lerp_spec(v, x1, x2), lerp_spec(v, x3, x4)) + 65536, 2)
}

/// Mask a hash argument down to a table index.
pub fn constrain(n: u32) -> (r: usize)
    ensures
        r == (n & 255),
        r == n as int % 256,
        r < 256,
{
    proof {
        assert(n & 255 == n % 256 && n & 255 < 256) by (bit_vector);
    }
    (n & 255) as usize
}

/// One step through the permutation table.
pub fn hash(x: u32) -> (r: u32)
    ensures
        r == hash_i(x as int),
        r < 256,
{
    proof {
        reveal(perm_i);
    }
    let idx = constrain(x);
    PERMUTATIONS[idx] as u32
}

/// The fade polynomial stays below one on the unit interval:
/// `s^5 - n^3 (6n^2 - 15ns + 10s^2) == (s - n)^3 (s^2 + 3ns + 6n^2) >= 0`.
#[verifier::rlimit(100)]
proof fn lemma_fade_poly_high(n: int, s: int)
    requires
        0 <= n <= s,
    ensures
        n * n * n * (6 * (n * n) - 15 * (n * s) + 10 * (s * s)) <= s * s * s * (s * s),
{
    let p = s - n;
    let q = (s * s) + 3 * (n * s) + 6 * (n * n);
    let c3 = s * s * s;
    let c2 = (s * s) * n;
    let c1 = s * (n * n);
    let c0 = n * n * n;
    let n5 = n * n * n * n * n;
    let n4s = n * n * n * n * s;
    let n3s2 = n * n * n * (s * s);
    let n2s3 = n * n * (s * s * s);
    let ns4 = n * (s * s * s * s);
    let s5 = s * s * s * s * s;
    assert(p * p * p == c3 - 3 * c2 + 3 * c1 - c0) by (nonlinear_arith)
        requires
            p == s - n,
            c3 == s * s * s,
            c2 == (s * s) * n,
            c1 == s * (n * n),
            c0 == n * n * n,
    ;
    assert((c3 - 3 * c2 + 3 * c1 - c0) * q == c3 * q - 3 * (c2 * q) + 3 * (c1 * q) - c0 * q)
        by (nonlinear_arith);
    assert(c3 * q == s5 + 3 * ns4 + 6 * n2s3) by (nonlinear_arith)
        requires
            q == (s * s) + 3 * (n * s) + 6 * (n * n),
            c3 == s * s * s,
            s5 == s * s * s * s * s,
            ns4 == n * (s * s * s * s),
            n2s3 == n * n * (s * s * s),
    ;
    assert(c2 * q == ns4 + 3 * n2s3 + 6 * n3s2) by (nonlinear_arith)
        requires
            q == (s * s) + 3 * (n * s) + 6 * (n * n),
            c2 == (s * s) * n,
            ns4 == n * (s * s * s * s),
            n2s3 == n * n * (s * s * s),
            n3s2 == n * n * n * (s * s),
    ;
    assert(c1 * q == n2s3 + 3 * n3s2 + 6 * n4s) by (nonlinear_arith)
        requires
            q == (s * s) + 3 * (n * s) + 6 * (n * n),
            c1 == s * (n * n),
            n2s3 == n * n * (s * s * s),
            n3s2 == n * n * n * (s * s),
            n4s == n * n * n * n * s,
    ;
    assert(c0 * q == n3s2 + 3 * n4s + 6 * n5) by (nonlinear_arith)
        requires
            q == (s * s) + 3 * (n * s) + 6 * (n * n),
            c0 == n * n * n,
            n3s2 == n * n * n * (s * s),
            n4s == n * n * n * n * s,
            n5 == n * n * n * n * n,
    ;
    assert(p * p * p * q == s5 - 10 * n3s2 + 15 * n4s - 6 * n5) by (nonlinear_arith)
        requires
            p * p * p == c3 - 3 * c2 + 3 * c1 - c0,
            (c3 - 3 * c2 + 3 * c1 - c0) * q == c3 * q - 3 * (c2 * q) + 3 * (c1 * q) - c0 * q,
            c3 * q == s5 + 3 * ns4 + 6 * n2s3,
            c2 * q == ns4 + 3 * n2s3 + 6 * n3s2,
            c1 * q == n2s3 + 3 * n3s2 + 6 * n4s,
            c0 * q == n3s2 + 3 * n4s + 6 * n5,
    ;
    assert(n * n * n * (6 * (n * n) - 15 * (n * s) + 10 * (s * s)) == 6 * n5 - 15 * n4s + 10
        * n3s2) by (nonlinear_arith)
        requires
            n5 == n * n * n * n * n,
            n4s == n * n * n * n * s,
            n3s2 == n * n * n * (s * s),
    ;
    assert(s * s * s * (s * s) == s5) by (nonlinear_arith)
        requires
            s5 == s * s * s * s * s,
    ;
    assert(p >= 0 && q >= 0) by (nonlinear_arith)
        requires
            p == s - n,
            q == (s * s) + 3 * (n * s) + 6 * (n * n),
            0 <= n <= s,
    ;
    assert(p * p * p * q >= 0) by (nonlinear_arith)
        requires
            p >= 0,
            q >= 0,
    ;
}

/// The fade polynomial stays above zero on the unit interval:
/// `n (6n - 15s) + 9 s^2 == 3 (s - n)(3s - 2n) >= 0`.
proof fn lemma_fade_poly_low(n: int, s: int)
    requires
        0 <= n <= s,
    ensures
        n * (6 * n - 15 * s) + 9 * (s * s) >= 0,
{
    assert(n * (6 * n - 15 * s) + 9 * (s * s) == 3 * ((s - n) * (3 * s - 2 * n)))
        by (nonlinear_arith);
    assert((s - n) * (3 * s - 2 * n) >= 0) by (nonlinear_arith)
        requires
            0 <= n <= s,
    ;
}

/// The fade curve, fixed point.  Mathematically the curve maps `[0, 1]` onto
/// `[0, 1]`; the stepwise truncations can exceed the top by at most one raw
/// step.
#[verifier::rlimit(100)]
pub fn fade(n: i64) -> (r: i64)
    requires
        0 <= n <= SCALE,
    ensures
        r == fade_spec(n as int),
        0 <= r <= SCALE as int + 1,
{
    proof {
        lemma_mul_fx_range(n as int, 6 * 65536int, 65536int, 6 * 65536int);
        lemma_mul_fx_range(n as int, n as int, 65536int, 65536int);
    }
    let a: i64 = mul_fx(n, 6 * SCALE) - 15 * SCALE;
    proof {
        // 6 n * SCALE / SCALE is exact.
        assert(tdiv(n as int * (6 * 65536), 65536) == 6 * n) by (nonlinear_arith);
        assert(a == 6 * n - 15 * 65536);
        lemma_mul_fx_range(n as int, a as int, 65536int, 16 * 65536int);
    }
    let b: i64 = mul_fx(n, a) + 10 * SCALE;
    let t2: i64 = mul_fx(n, n);
    proof {
        lemma_mul_fx_range(t2 as int, n as int, 65536int, 65536int);
    }
    let d: i64 = mul_fx(t2, n);
    proof {
        lemma_mul_fx_range(d as int, b as int, 65536int, 26 * 65536int);
    }
    let r = mul_fx(d, b);
    proof {
        let ni = n as int;
        let ai = a as int;
        let na = ni * ai;
        assert(ni * ni >= 0) by (nonlinear_arith);
        crate::fx::lemma_tdiv_mul_bounds(ni * ni, 65536);
        assert(t2 >= 0);
        assert(t2 as int * 65536 <= ni * ni);
        assert(t2 as int * ni >= 0) by (nonlinear_arith)
            requires
                t2 >= 0,
                ni >= 0,
        ;
        crate::fx::lemma_tdiv_mul_bounds(t2 as int * ni, 65536);
        assert(d >= 0);
        assert(d as int * 65536 <= t2 as int * ni);
        assert(d as int * (65536 * 65536) <= ni * ni * ni) by (nonlinear_arith)
            requires
                d as int * 65536 <= t2 as int * ni,
                t2 as int * 65536 <= ni * ni,
                0 <= ni,
                0 <= t2,
                0 <= d,
        ;
        assert(ai <= 0);
        assert(na <= 0) by (nonlinear_arith)
            requires
                na == ni * ai,
                ai <= 0,
                ni >= 0,
        ;
        crate::fx::lemma_tdiv_mul_bounds(na, 65536);
        let mi = mul_fx_spec(ni, ai);
        assert(mi <= 0);
        assert(na <= mi * 65536);
        assert(mi * 65536 < na + 65536);
        lemma_fade_poly_low(ni, 65536);
        assert(na + 9 * (65536 * 65536) >= 0);
        assert(b as int == mi + 10 * 65536);
        assert(b as int * 65536 >= 65536 * 65536);
        assert(0 <= b as int <= 10 * 65536);
        assert(d as int * b as int >= 0) by (nonlinear_arith)
            requires
                d >= 0,
                b as int >= 0,
        ;
        crate::fx::lemma_tdiv_mul_bounds(d as int * b as int, 65536);
        assert(r >= 0);
        assert(r as int * 65536 <= d as int * b as int);
        assert(b as int * 65536 <= na + 10 * (65536 * 65536) + 65536) by (nonlinear_arith)
            requires
                b as int == mi + 10 * 65536,
                mi * 65536 < na + 65536,
        ;
        assert(d as int * b as int * (65536 * 65536 * 65536) <= ni * ni * ni * (b as int * 65536))
            by (nonlinear_arith)
            requires
                d as int * (65536 * 65536) <= ni * ni * ni,
                b as int >= 0,
        ;
        lemma_fade_poly_high(ni, 65536);
        assert(ni * ni * ni * (b as int * 65536) <= 65536 * 65536 * 65536 * (65536 * 65536) + ni
            * ni * ni * 65536) by (nonlinear_arith)
            requires
                b as int * 65536 <= na + 10 * (65536 * 65536) + 65536,
                na == ni * ai,
                ai == 6 * ni - 15 * 65536,
                ni * ni * ni * (6 * (ni * ni) - 15 * (ni * 65536) + 10 * (65536 * 65536)) <= 65536
                    * 65536 * 65536 * (65536 * 65536),
                0 <= ni,
        ;
        assert(ni * ni * ni * 65536 <= 65536 * 65536 * 65536 * 65536) by (nonlinear_arith)
            requires
                0 <= ni <= 65536,
        ;
        assert(r as int <= 65536 + 1) by (nonlinear_arith)
            requires
                r as int * 65536 <= d as int * b as int,
                d as int * b as int * (65536 * 65536 * 65536) <= 65536 * 65536 * 65536 * (65536
                    * 65536) + 65536 * 65536 * 65536 * 65536,
                r >= 0,
        ;
    }
    r
}

/// The pseudo-gradient product selected by `h & 15`.
pub fn fake_dot(h: u32, x: i64, y: i64, z: i64) -> (r: i64)
    requires
        -2 * SCALE as int <= x <= 2 * SCALE as int,
        -2 * SCALE as int <= y <= 2 * SCALE as int,
        -2 * SCALE as int <= z <= 2 * SCALE as int,
    ensures
        r == fake_dot_spec(h as int, x as int, y as int, z as int),
        -4 * SCALE as int <= r <= 4 * SCALE as int,
        -(abs1(x as int) + abs1(y as int) + abs1(z as int)) <= r <= abs1(x as int) + abs1(
            y as int,
        ) + abs1(z as int),
{
    proof {
        assert(h & 15 == h % 16 && h & 15 < 16) by (bit_vector);
    }
    let k = h & 15;
    if k == 0 {
        x + y
    } else if k == 1 {
        -x + y
    } else if k == 2 {
        x - y
    } else if k == 3 {
        -x - y
    } else if k == 4 {
        x + z
    } else if k == 5 {
        -x + z
    } else if k == 6 {
        x - z
    } else if k == 7 {
        -x - z
    } else if k == 8 {
        y + z
    } else if k == 9 {
        -y + z
    } else if k == 10 {
        y - z
    } else if k == 11 {
        -y - z
    } else if k == 12 {
        y + x
    } else if k == 13 {
        -y + z
    } else if k == 14 {
        y - x
    } else {
        -y - z
    }
}

/// A 32-bit wrapping sum.
fn wadd(a: u32, b: u32) -> (r: u32)
    ensures
        r == wadd_spec(a as int, b as int),
{
    ((a as u64 + b as u64) % 0x100000000) as u32
}

/// A blend with a fade factor lands within seven raw steps of its
/// endpoints' interval: the factor can exceed one unit by one step, and the
/// scaling division truncates.
proof fn lemma_lerp_between(t: int, a: int, b: int, lo: int, hi: int)
    requires
        lo <= a <= hi,
        lo <= b <= hi,
        0 <= t <= 65537,
        hi - lo <= 0x70000,
    ensures
        lo - 7 <= lerp_spec(t, a, b) <= hi + 7,
{
    crate::fx::lemma_tdiv_mul_bounds((b - a) * t, 65536);
    let m = mul_fx_spec(b - a, t);
    if b >= a {
        assert(0 <= (b - a) * t && (b - a) * t <= (b - a) * 65537) by (nonlinear_arith)
            requires
                b - a >= 0,
                0 <= t <= 65537,
        ;
        assert(m >= 0);
        assert(m * 65536 <= (b - a) * 65537);
        assert(m <= (b - a) + 7);
    } else {
        assert((b - a) * t <= 0 && (a - b) * t <= (a - b) * 65537 && -((b - a) * t) == (a - b) * t)
            by (nonlinear_arith)
            requires
                b - a < 0,
                0 <= t <= 65537,
        ;
        assert(m <= 0);
        assert((-m) * 65536 <= (a - b) * 65537);
        assert(-m <= (a - b) + 7);
    }
}

/// Interpolation step of the trilinear blend, with a parametric magnitude
/// bound (`|t|` at most sixteen whole units).
fn lerp_n(t: i64, a: i64, b: i64) -> (r: i64)
    requires
        -0x2000000000 <= a <= 0x2000000000,
        -0x2000000000 <= b <= 0x2000000000,
        -0x200000 <= t <= 0x200000,
    ensures
        r == lerp_spec(t as int, a as int, b as int),
        -abs1(a as int) - 32 * (abs1(a as int) + abs1(b as int)) <= r <= abs1(a as int) + 32 * (
        abs1(a as int) + abs1(b as int)),
{
    let d: i64 = b - a;
    proof {
        lemma_mul_fx_range(d as int, t as int, abs1(d as int), 0x200000int);
    }
    let m: i64 = mul_fx(d, t);
    a + m
}

/// The floor lattice index of a fixed-point coordinate, saturated to 32 bits,
/// and the in-cell offset.
fn cell_of(x: i64) -> (r: (u32, i64))
    requires
        -0x4000000000000000 <= x <= 0x4000000000000000,
    ensures
        r.0 == sat_u32(x as int / 65536),
        r.1 == x as int % 65536,
        0 <= r.1 < 65536,
{
    let d: i64 = x / SCALE;
    let fl: i64 = if x >= 0 || d * SCALE == x {
        d
    } else {
        d - 1
    };
    let xf: i64 = x - fl * SCALE;
    let xi: u32 = if fl < 0 {
        0
    } else if fl > 0xffffffff {
        0xffffffffu32
    } else {
        fl as u32
    };
    (xi, xf)
}

/// Gradient noise at `point`, remapped from `[-1, 1]` to `[0, 1]` in fixed
/// point.  The result is a function of `point` alone (`noise_spec`), so
/// repeated calls with equal inputs return equal values.  The proved
/// envelope is `[-1 - eps, 2 + eps]` units (`eps` a few raw steps): the
/// pseudo-gradient products can reach two units in magnitude, so the
/// remapped blend is not confined to `[0, 1]` for every conceivable input —
/// on sampled points it stays inside (the exercised behavior), which is why
/// the unit range is checked by tests rather than stated here.
#[verifier::rlimit(100)]
#[verifier::spinoff_prover]
pub fn noise(point: &Vector3) -> (r: i64)
    requires
        in_range(*point, LMAX as int),
    ensures
        r == noise_spec(*point),
        -(SCALE as int) - 11 <= r <= 2 * SCALE as int + 11,
{
    let (xi, xf) = cell_of(point.x);
    let (yi, yf) = cell_of(point.y);
    let (zi, zf) = cell_of(point.z);
    let u = fade(xf);
    let v = fade(yf);
    let w = fade(zf);
    let a = hash(xi);
    let b = hash(wadd(xi, 1));
    let c = hash(wadd(a, yi));
    let d = hash(wadd(wadd(a, yi), 1));
    let e = hash(wadd(b, yi));
    let f = hash(wadd(wadd(b, yi), 1));
    let g1 = fake_dot(hash(wadd(c, zi)), xf, yf, zf);
    let g2 = fake_dot(hash(wadd(e, zi)), xf - SCALE, yf, zf);
    let g3 = fake_dot(hash(wadd(d, zi)), xf, yf - SCALE, zf);
    let g4 = fake_dot(hash(wadd(f, zi)), xf - SCALE, yf - SCALE, zf);
    let g5 = fake_dot(hash(wadd(wadd(c, 1), zi)), xf, yf, zf - SCALE);
    let g6 = fake_dot(hash(wadd(wadd(e, 1), zi)), xf - SCALE, yf, zf - SCALE);
    let g7 = fake_dot(hash(wadd(wadd(d, 1), zi)), xf, yf - SCALE, zf - SCALE);
    let g8 = fake_dot(hash(wadd(wadd(f, 1), zi)), xf - SCALE, yf - SCALE, zf - SCALE);
    let x1 = lerp_n(u, g1, g2);
    let x2 = lerp_n(u, g3, g4);
    let x3 = lerp_n(u, g5, g6);
    let x4 = lerp_n(u, g7, g8);
    proof {
        assert(-0x30000 <= g1 <= 0x30000 && -0x30000 <= g2 <= 0x30000 && -0x30000 <= g3 <= 0x30000
            && -0x30000 <= g4 <= 0x30000 && -0x30000 <= g5 <= 0x30000 && -0x30000 <= g6 <= 0x30000
            && -0x30000 <= g7 <= 0x30000 && -0x30000 <= g8 <= 0x30000);
        lemma_lerp_between(u as int, g1 as int, g2 as int, -0x30000, 0x30000);
        lemma_lerp_between(u as int, g3 as int, g4 as int, -0x30000, 0x30000);
        lemma_lerp_between(u as int, g5 as int, g6 as int, -0x30000, 0x30000);
        lemma_lerp_between(u as int, g7 as int, g8 as int, -0x30000, 0x30000);
        assert(-0x30007 <= x1 <= 0x30007);
        assert(-0x30007 <= x2 <= 0x30007);
        assert(-0x30007 <= x3 <= 0x30007);
        assert(-0x30007 <= x4 <= 0x30007);
    }
    let y1 = lerp_n(v, x1, x2);
    let y2 = lerp_n(v, x3, x4);
    proof {
        lemma_lerp_between(v as int, x1 as int, x2 as int, -0x30007, 0x30007);
        lemma_lerp_between(v as int, x3 as int, x4 as int, -0x30007, 0x30007);
        assert(-0x3000e <= y1 <= 0x3000e);
        assert(-0x3000e <= y2 <= 0x3000e);
    }
    let z1 = lerp_n(w, y1, y2);
    proof {
        lemma_lerp_between(w as int, y1 as int, y2 as int, -0x3000e, 0x3000e);
        assert(-0x30015 <= z1 <= 0x30015);
    }
    (z1 + SCALE) / 2
}

} // verus!
