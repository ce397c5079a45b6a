//! Fixed-point scalar arithmetic.
//!
//! A quantity is an `i64` holding its value times `SCALE` (2^16).  Products
//! and quotients are evaluated in `i128` and truncated toward zero, which is
//! the rounding `tdiv` describes.  `sqrt_floor` is the exact integer square
//! root used for vector lengths.
use vstd::prelude::*;

verus! {

/// Number of raw units per whole unit: all scalars carry 16 fractional bits.
pub const SCALE: i64 = 65536;

/// Magnitude of a mathematical integer.
pub open spec fn abs1(a: int) -> int {
    if a >= 0 {
        a
    } else {
        -a
    }
}

/// Division truncated toward zero, the rounding of Rust's `/` on signed
/// integers (spec `/` alone is Euclidean).
pub open spec fn tdiv(a: int, b: int) -> int {
    if a >= 0 {
        a / b
    } else {
        -((-a) / b)
    }
}

/// The value of a fixed-point product: the wide product scaled back down,
/// truncated toward zero.
pub open spec fn mul_fx_spec(a: int, b: int) -> int {
    tdiv(a * b, SCALE as int)
}

/// The value of a fixed-point quotient.
pub open spec fn div_fx_spec(a: int, b: int) -> int {
    tdiv(a * SCALE, b)
}

/// Exact integer square root (largest `r` with `r * r <= n`).
pub open spec fn sqrt_floor(n: nat) -> nat
    decreases n,
{
    if n == 0 {
        0
    } else {
        let r = sqrt_floor((n - 1) as nat);
        if (r + 1) * (r + 1) <= n {
            r + 1
        } else {
            r
        }
    }
}

/// `sqrt_floor` meets its defining inequalities.
pub proof fn lemma_sqrt_floor(n: nat)
    ensures
        sqrt_floor(n) * sqrt_floor(n) <= n,
        n < (sqrt_floor(n) + 1) * (sqrt_floor(n) + 1),
    decreases n,
{
    if n > 0 {
        lemma_sqrt_floor((n - 1) as nat);
        let r = sqrt_floor((n - 1) as nat);
        assert(r * r <= n - 1);
        assert(n - 1 < (r + 1) * (r + 1));
        if (r + 1) * (r + 1) <= n {
            assert(sqrt_floor(n) == r + 1);
            assert(n < (r + 2) * (r + 2)) by (nonlinear_arith)
                requires
                    n <= (r + 1) * (r + 1),
                    r >= 0,
            ;
            assert(sqrt_floor(n) * sqrt_floor(n) <= n);
            assert(n < (sqrt_floor(n) + 1) * (sqrt_floor(n) + 1));
        } else {
            assert(sqrt_floor(n) == r);
            assert(sqrt_floor(n) * sqrt_floor(n) <= n);
            assert(n < (sqrt_floor(n) + 1) * (sqrt_floor(n) + 1));
        }
    } else {
        assert(n == 0);
        assert(sqrt_floor(n) == 0);
        assert(sqrt_floor(n) * sqrt_floor(n) <= n);
        assert((sqrt_floor(n) + 1) * (sqrt_floor(n) + 1) == 1) by (nonlinear_arith)
            requires
                sqrt_floor(n) == 0,
        ;
        assert(n < (sqrt_floor(n) + 1) * (sqrt_floor(n) + 1));
    }
}

/// Any `r` meeting the square-root inequalities is `sqrt_floor(n)`.
pub proof fn lemma_sqrt_unique(n: nat, r: nat)
    requires
        r * r <= n,
        n < (r + 1) * (r + 1),
    ensures
        r == sqrt_floor(n),
{
    lemma_sqrt_floor(n);
    let s = sqrt_floor(n);
    if r < s {
        assert(s * s > n) by (nonlinear_arith)
            requires
                r < s,
                n < (r + 1) * (r + 1),
                r >= 0,
        {
        }
    }
    if s < r {
        assert(r * r > n) by (nonlinear_arith)
            requires
                s < r,
                n < (s + 1) * (s + 1),
                s >= 0,
        {
        }
    }
}

/// Truncating division is unchanged by negating both operands.
pub proof fn lemma_tdiv_neg(a: int, b: int)
    by (nonlinear_arith)
    requires
        b != 0,
    ensures
        tdiv(-a, -b) == tdiv(a, b),
{
}

/// Bound on a product from bounds on its factors.
pub proof fn lemma_mul_bound(a: int, b: int, ma: int, mb: int)
    by (nonlinear_arith)
    requires
        -ma <= a <= ma,
        -mb <= b <= mb,
        0 <= ma,
        0 <= mb,
    ensures
        -(ma * mb) <= a * b <= ma * mb,
{
}

/// Bound on a fixed-point product from bounds on its factors.
pub proof fn lemma_mul_fx_range(a: int, b: int, ma: int, mb: int)
    requires
        -ma <= a <= ma,
        -mb <= b <= mb,
        0 <= ma,
        0 <= mb,
    ensures
        -(ma * mb) <= a * b <= ma * mb,
        -((ma * mb) / 65536) <= mul_fx_spec(a, b) <= (ma * mb) / 65536,
{
    lemma_mul_bound(a, b, ma, mb);
}

/// Truncating division characterized by multiplication: the quotient's
/// magnitude times the divisor reaches the dividend's magnitude to within
/// one divisor.
pub proof fn lemma_tdiv_mul_bounds(a: int, b: int)
    by (nonlinear_arith)
    requires
        b > 0,
    ensures
        abs1(tdiv(a, b)) * b <= abs1(a),
        abs1(a) < abs1(tdiv(a, b)) * b + b,
{
}

/// Truncating division never grows the magnitude of the dividend.
pub proof fn lemma_tdiv_bound(a: int, b: int)
    by (nonlinear_arith)
    requires
        b != 0,
    ensures
        -abs1(a) <= tdiv(a, b) <= abs1(a),
        a >= 0 && b > 0 ==> 0 <= tdiv(a, b) <= a,
{
}

/// Fixed-point product, truncated toward zero.
pub fn mul_fx(a: i64, b: i64) -> (r: i64)
    requires
        -0x7fffffffffffffff * (SCALE as int) <= a * b <= 0x7fffffffffffffff * (SCALE as int),
    ensures
        r == mul_fx_spec(a as int, b as int),
{
    proof {
        lemma_mul_bound(a as int, b as int, 0x8000000000000000, 0x8000000000000000);
        lemma_tdiv_bound(a as int * b as int, SCALE as int);
    }
    let p: i128 = (a as i128) * (b as i128);
    let q: i128 = p / (SCALE as i128);
    q as i64
}

/// Fixed-point quotient, truncated toward zero.
pub fn div_fx(a: i64, b: i64) -> (r: i64)
    requires
        b != 0,
        -0x7fffffffffffffff <= div_fx_spec(a as int, b as int) <= 0x7fffffffffffffff,
    ensures
        r == div_fx_spec(a as int, b as int),
{
    let p: i128 = (a as i128) * (SCALE as i128);
    let q: i128 = p / (b as i128);
    q as i64
}

/// Linear interpolation `a + (b - a) * t` between fixed-point scalars;
/// `t` runs from 0 (all `a`) to `SCALE` (all `b`).
pub fn lerp(t: i64, a: i64, b: i64) -> (r: i64)
    requires
        -0x7fffffffffffffff <= b - a <= 0x7fffffffffffffff,
        -0x7fffffffffffffff * (SCALE as int) <= (b - a) * t <= 0x7fffffffffffffff * (SCALE as int),
        -0x8000000000000000 <= a + mul_fx_spec(b - a, t as int) <= 0x7fffffffffffffff,
    ensures
        r == a + mul_fx_spec(b - a, t as int),
{
    let d: i64 = b - a;
    let m: i64 = mul_fx(d, t);
    a + m
}

/// Wide truncating division for either sign of divisor.
pub fn tdiv_i128(a: i128, b: i128) -> (r: i128)
    requires
        b != 0,
        -0x40000000000000000000000000000000 <= a <= 0x40000000000000000000000000000000,
        -0x40000000000000000000000000000000 <= b <= 0x40000000000000000000000000000000,
    ensures
        r == tdiv(a as int, b as int),
{
    proof {
        lemma_tdiv_neg(a as int, b as int);
    }
    if b > 0 {
        a / b
    } else {
        (-a) / (-b)
    }
}

/// Exact integer square root of a wide unsigned value.
pub fn isqrt(n: u128) -> (r: u64)
    ensures
        r == sqrt_floor(n as nat),
{
    let mut lo: u128 = 0;
    let mut hi: u128 = 0x10000000000000000;
    proof {
        assert(n < hi as int * hi as int) by (nonlinear_arith)
            requires
                n <= 0xffffffffffffffffffffffffffffffff,
                hi == 0x10000000000000000,
        {
        }
    }
    while lo + 1 < hi
        invariant
            lo < hi,
            hi <= 0x10000000000000000,
            lo as int * lo as int <= n,
            n < hi as int * hi as int,
        decreases hi - lo,
    {
        let mid: u128 = lo + (hi - lo) / 2;
        proof {
            lemma_mul_bound(mid as int, mid as int, 0xffffffffffffffff, 0xffffffffffffffff);
        }
        let sq: u128 = mid * mid;
        if sq <= n {
            lo = mid;
        } else {
            hi = mid;
        }
    }
    proof {
        lemma_sqrt_unique(n as nat, lo as nat);
    }
    lo as u64
}

} // verus!
