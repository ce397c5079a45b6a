//! Vector value types over fixed-point scalars.
//!
//! `dot_wide` and `len2_wide` are the exact integer forms the geometric
//! contracts are stated over: raw component products carry two `SCALE`
//! factors, so `dot` scales its wide sum back down once.
use crate::fx::{abs1, div_fx, lemma_mul_bound, lemma_sqrt_floor, mul_fx, mul_fx_spec, sqrt_floor,
    tdiv, SCALE};
use vstd::prelude::*;

verus! {

/// Componentwise bound under which the vector operations are overflow-free.
pub const VMAX: i64 = 0x4000000000;

/// Componentwise bound on world coordinates (geometry, ray origins and
/// directions) under which the intersection arithmetic is overflow-free.
pub const WMAX: i64 = 0x20000000;

/// Looser componentwise bound under which lengths and unit vectors are still
/// overflow-free.
pub const LMAX: i64 = 0x4000000000000000;

#[derive(Debug, Clone, Copy, PartialEq, Eq, Structural)]
pub struct Vector3 {
    pub x: i64,
    pub y: i64,
    pub z: i64,
}

#[derive(Debug, Clone, Copy, PartialEq, Eq, Structural)]
pub struct Vector2 {
    pub x: i64,
    pub y: i64,
}

#[derive(Debug, Clone, Copy, PartialEq, Eq, Structural)]
pub struct Vector4 {
    pub x: i64,
    pub y: i64,
    pub z: i64,
    pub w: i64,
}

/// All three components within `[-m, m]`.
pub open spec fn in_range(v: Vector3, m: int) -> bool {
    &&& -m <= v.x <= m
    &&& -m <= v.y <= m
    &&& -m <= v.z <= m
}

/// Unscaled dot product: the sum of raw component products (carries two
/// `SCALE` factors).
pub open spec fn dot_wide(a: Vector3, b: Vector3) -> int {
    a.x * b.x + a.y * b.y + a.z * b.z
}

/// Componentwise sum as a value (meaningful while components stay in range).
pub open spec fn vadd_spec(a: Vector3, b: Vector3) -> Vector3 {
    Vector3 { x: (a.x + b.x) as i64, y: (a.y + b.y) as i64, z: (a.z + b.z) as i64 }
}

/// Componentwise difference as a value.
pub open spec fn vsub_spec(a: Vector3, b: Vector3) -> Vector3 {
    Vector3 { x: (a.x - b.x) as i64, y: (a.y - b.y) as i64, z: (a.z - b.z) as i64 }
}

/// The unit vector along `v`: each component divided by the exact length.
pub open spec fn unit_spec(v: Vector3) -> Vector3 {
    let l = sqrt_floor(len2_wide(v) as nat) as int;
    Vector3 {
        x: tdiv(v.x * SCALE, l) as i64,
        y: tdiv(v.y * SCALE, l) as i64,
        z: tdiv(v.z * SCALE, l) as i64,
    }
}

/// Whether the exact (untruncated) integer cross product of two vectors is
/// zero on all three components: true exactly when the vectors are parallel
/// (one is a rational multiple of the other, or one is zero).
pub open spec fn cross_wide_is_zero(a: Vector3, b: Vector3) -> bool {
    &&& a.y * b.z == a.z * b.y
    &&& a.z * b.x == a.x * b.z
    &&& a.x * b.y == a.y * b.x
}

/// Componentwise product with a fixed-point scalar, as a value.
pub open spec fn vscale_spec(v: Vector3, s: int) -> Vector3 {
    Vector3 {
        x: mul_fx_spec(v.x as int, s) as i64,
        y: mul_fx_spec(v.y as int, s) as i64,
        z: mul_fx_spec(v.z as int, s) as i64,
    }
}

/// Cross product by the right-hand rule, each component a difference of two
/// fixed-point component products.
pub open spec fn cross_spec(a: Vector3, b: Vector3) -> Vector3 {
    Vector3 {
        x: (mul_fx_spec(a.y as int, b.z as int) - mul_fx_spec(a.z as int, b.y as int)) as i64,
        y: (mul_fx_spec(a.z as int, b.x as int) - mul_fx_spec(a.x as int, b.z as int)) as i64,
        z: (mul_fx_spec(a.x as int, b.y as int) - mul_fx_spec(a.y as int, b.x as int)) as i64,
    }
}

/// `unit_spec`, except that the zero vector is passed through unchanged.
pub open spec fn safe_unit_spec(v: Vector3) -> Vector3 {
    if len2_wide(v) > 0 {
        unit_spec(v)
    } else {
        v
    }
}

/// Unscaled squared length.
pub open spec fn len2_wide(v: Vector3) -> int {
    dot_wide(v, v)
}

/// The wide dot product of bounded vectors is bounded by `3 * m * m`.
pub proof fn lemma_dot_wide_bound(a: Vector3, b: Vector3, m: int)
    requires
        in_range(a, m),
        in_range(b, m),
        m >= 0,
    ensures
        -3 * (m * m) <= dot_wide(a, b) <= 3 * (m * m),
{
    lemma_mul_bound(a.x as int, b.x as int, m, m);
    lemma_mul_bound(a.y as int, b.y as int, m, m);
    lemma_mul_bound(a.z as int, b.z as int, m, m);
}

/// A squared length is never negative.
pub proof fn lemma_len2_nonneg(v: Vector3)
    by (nonlinear_arith)
    ensures
        len2_wide(v) >= 0,
        v.x * v.x <= len2_wide(v),
        v.y * v.y <= len2_wide(v),
        v.z * v.z <= len2_wide(v),
{
}

/// A squared length is zero exactly for the zero vector.
pub proof fn lemma_len2_zero(v: Vector3)
    by (nonlinear_arith)
    ensures
        len2_wide(v) == 0 <==> (v.x == 0 && v.y == 0 && v.z == 0),
        len2_wide(v) >= 0,
{
}

/// One component's contribution to the normalization error bounds (`A` is
/// the scaled unit component's magnitude times the length, `B` the raw
/// component's magnitude times `SCALE`).
proof fn lemma_unit_component_square(a2: int, b2: int, aa: int, bb: int, ll: int)
    by (nonlinear_arith)
    requires
        0 <= aa,
        0 <= bb,
        0 < ll,
        aa <= bb,
        bb < aa + ll,
        a2 == aa * aa,
        b2 == bb * bb,
    ensures
        a2 <= b2,
        a2 >= b2 - 2 * ll * bb,
{
}

/// Normalization accuracy: for any vector at least one whole unit long, the
/// exact length of its unit vector lies within four raw steps below one unit
/// and never above it.  One raw step is 2^-16 of a unit, so the length error
/// is at most 4 * 2^-16; this is the sharpest guarantee the 16-bit
/// fixed-point grid admits (a vector much shorter than a unit loses accuracy
/// in proportion to the grid, which is why the bound asks for unit length).
#[verifier::rlimit(100)]
pub proof fn lemma_unit_accuracy(v: Vector3)
    requires
        len2_wide(v) >= SCALE * SCALE,
    ensures
        SCALE - 4 <= sqrt_floor(len2_wide(unit_spec(v)) as nat) <= SCALE,
{
    let s = SCALE as int;
    let n2 = len2_wide(v);
    lemma_len2_nonneg(v);
    lemma_sqrt_floor(n2 as nat);
    let l = sqrt_floor(n2 as nat) as int;
    assert(l >= s) by (nonlinear_arith)
        requires
            n2 >= s * s,
            n2 < (l + 1) * (l + 1),
            l >= 0,
            s == 65536,
    ;
    lemma_component_le_length(v.x as int, n2, l);
    lemma_component_le_length(v.y as int, n2, l);
    lemma_component_le_length(v.z as int, n2, l);
    let u = unit_spec(v);
    crate::fx::lemma_tdiv_mul_bounds(v.x * s, l);
    crate::fx::lemma_tdiv_mul_bounds(v.y * s, l);
    crate::fx::lemma_tdiv_mul_bounds(v.z * s, l);
    // Each truncated component stays within [-SCALE, SCALE], so the spec's
    // i64 casts are the identity.
    lemma_unit_component(v.x as int, l);
    lemma_unit_component(v.y as int, l);
    lemma_unit_component(v.z as int, l);
    let ux = tdiv(v.x * s, l);
    let uy = tdiv(v.y * s, l);
    let uz = tdiv(v.z * s, l);
    assert(u.x == ux && u.y == uy && u.z == uz);
    // |a * b| == |a| * |b| for the pairs this proof multiplies.
    assert(abs1(v.x * s) == abs1(v.x as int) * s && abs1(v.y * s) == abs1(v.y as int) * s && abs1(
        v.z * s,
    ) == abs1(v.z as int) * s) by (nonlinear_arith)
        requires
            s > 0,
    ;
    assert(ux * ux * (l * l) == (abs1(ux) * l) * (abs1(ux) * l) && (v.x * s) * (v.x * s) == (abs1(
        v.x as int,
    ) * s) * (abs1(v.x as int) * s)) by (nonlinear_arith);
    assert(uy * uy * (l * l) == (abs1(uy) * l) * (abs1(uy) * l) && (v.y * s) * (v.y * s) == (abs1(
        v.y as int,
    ) * s) * (abs1(v.y as int) * s)) by (nonlinear_arith);
    assert(uz * uz * (l * l) == (abs1(uz) * l) * (abs1(uz) * l) && (v.z * s) * (v.z * s) == (abs1(
        v.z as int,
    ) * s) * (abs1(v.z as int) * s)) by (nonlinear_arith);
    lemma_unit_component_square(
        ux * ux * (l * l),
        (v.x * s) * (v.x * s),
        abs1(ux) * l,
        abs1(v.x as int) * s,
        l,
    );
    lemma_unit_component_square(
        uy * uy * (l * l),
        (v.y * s) * (v.y * s),
        abs1(uy) * l,
        abs1(v.y as int) * s,
        l,
    );
    lemma_unit_component_square(
        uz * uz * (l * l),
        (v.z * s) * (v.z * s),
        abs1(uz) * l,
        abs1(v.z as int) * s,
        l,
    );
    let u2 = len2_wide(u);
    assert(u2 == ux * ux + uy * uy + uz * uz);
    // Sum the three component bounds and divide by l * l.
    assert(u2 * (l * l) == ux * ux * (l * l) + uy * uy * (l * l) + uz * uz * (l * l))
        by (nonlinear_arith)
        requires
            u2 == ux * ux + uy * uy + uz * uz,
    ;
    assert((v.x * s) * (v.x * s) == (v.x * v.x) * (s * s)) by (nonlinear_arith);
    assert((v.y * s) * (v.y * s) == (v.y * v.y) * (s * s)) by (nonlinear_arith);
    assert((v.z * s) * (v.z * s) == (v.z * v.z) * (s * s)) by (nonlinear_arith);
    assert(n2 * (s * s) == (v.x * v.x) * (s * s) + (v.y * v.y) * (s * s) + (v.z * v.z) * (s * s))
        by (nonlinear_arith)
        requires
            n2 == v.x * v.x + v.y * v.y + v.z * v.z,
    ;
    // Upper: u2 * l^2 <= n2 * s^2 < (l+1)^2 s^2 and l >= s force
    // u2 < (s+1)^2.
    assert(u2 < (s + 1) * (s + 1)) by (nonlinear_arith)
        requires
            u2 * (l * l) <= n2 * (s * s),
            n2 < (l + 1) * (l + 1),
            l >= s,
            s > 0,
    ;
    // Lower: the truncation loses at most 2*l*|v_i|*s per component and
    // |v_i| <= l, so u2 * l^2 >= (s^2 - 6s) * l^2.
    assert(2 * l * (abs1(v.x as int) * s) + 2 * l * (abs1(v.y as int) * s) + 2 * l * (abs1(
        v.z as int,
    ) * s) <= 6 * s * (l * l)) by (nonlinear_arith)
        requires
            abs1(v.x as int) <= l,
            abs1(v.y as int) <= l,
            abs1(v.z as int) <= l,
            0 <= abs1(v.x as int),
            0 <= abs1(v.y as int),
            0 <= abs1(v.z as int),
            s > 0,
            l > 0,
    ;
    assert(u2 >= s * s - 6 * s) by (nonlinear_arith)
        requires
            u2 * (l * l) >= n2 * (s * s) - 6 * s * (l * l),
            n2 >= l * l,
            l > 0,
            s > 0,
    ;
    // Read the square root off both bounds.
    lemma_len2_nonneg(u);
    lemma_sqrt_floor(u2 as nat);
    let r = sqrt_floor(u2 as nat) as int;
    assert(r <= s) by (nonlinear_arith)
        requires
            r * r <= u2,
            u2 < (s + 1) * (s + 1),
            r >= 0,
            s > 0,
    ;
    assert(r >= s - 4) by (nonlinear_arith)
        requires
            u2 < (r + 1) * (r + 1),
            u2 >= s * s - 6 * s,
            r >= 0,
            s == 65536,
    ;
}

/// No component magnitude exceeds the floor square root of the squared
/// length.
pub proof fn lemma_component_le_length(c: int, l2: int, l: int)
    by (nonlinear_arith)
    requires
        c * c <= l2,
        l >= 0,
        l2 < (l + 1) * (l + 1),
    ensures
        -l <= c <= l,
{
}

impl Vector3 {
    pub fn new(x: i64, y: i64, z: i64) -> (v: Vector3)
        ensures
            v == (Vector3 { x, y, z }),
    {
        Vector3 { x, y, z }
    }

    pub fn zero() -> (v: Vector3)
        ensures
            v == (Vector3 { x: 0i64, y: 0i64, z: 0i64 }),
    {
        Vector3 { x: 0, y: 0, z: 0 }
    }

    pub fn back() -> (v: Vector3)
        ensures
            v == (Vector3 { x: 0i64, y: 0i64, z: -SCALE as i64 }),
    {
        Vector3 { x: 0, y: 0, z: -SCALE }
    }

    pub fn up() -> (v: Vector3)
        ensures
            v == (Vector3 { x: 0i64, y: SCALE as i64, z: 0i64 }),
    {
        Vector3 { x: 0, y: SCALE, z: 0 }
    }

    pub fn down() -> (v: Vector3)
        ensures
            v == (Vector3 { x: 0i64, y: -SCALE as i64, z: 0i64 }),
    {
        Vector3 { x: 0, y: -SCALE, z: 0 }
    }

    pub fn forward() -> (v: Vector3)
        ensures
            v == (Vector3 { x: 0i64, y: 0i64, z: SCALE as i64 }),
    {
        Vector3 { x: 0, y: 0, z: SCALE }
    }

    pub fn left() -> (v: Vector3)
        ensures
            v == (Vector3 { x: -SCALE as i64, y: 0i64, z: 0i64 }),
    {
        Vector3 { x: -SCALE, y: 0, z: 0 }
    }

    pub fn one() -> (v: Vector3)
        ensures
            v == (Vector3 { x: SCALE as i64, y: SCALE as i64, z: SCALE as i64 }),
    {
        Vector3 { x: SCALE, y: SCALE, z: SCALE }
    }

    pub fn x(&self) -> (r: i64)
        ensures
            r == self.x,
    {
        self.x
    }

    pub fn y(&self) -> (r: i64)
        ensures
            r == self.y,
    {
        self.y
    }

    pub fn z(&self) -> (r: i64)
        ensures
            r == self.z,
    {
        self.z
    }

    /// Componentwise sum.
    pub fn add(&self, rhs: &Vector3) -> (r: Vector3)
        requires
            in_range(*self, 0x3fffffffffffffff),
            in_range(*rhs, 0x3fffffffffffffff),
        ensures
            r.x == self.x + rhs.x,
            r.y == self.y + rhs.y,
            r.z == self.z + rhs.z,
            r == vadd_spec(*self, *rhs),
    {
        Vector3 { x: self.x + rhs.x, y: self.y + rhs.y, z: self.z + rhs.z }
    }

    /// Componentwise difference.
    pub fn sub(&self, rhs: &Vector3) -> (r: Vector3)
        requires
            in_range(*self, 0x3fffffffffffffff),
            in_range(*rhs, 0x3fffffffffffffff),
        ensures
            r.x == self.x - rhs.x,
            r.y == self.y - rhs.y,
            r.z == self.z - rhs.z,
            r == vsub_spec(*self, *rhs),
    {
        Vector3 { x: self.x - rhs.x, y: self.y - rhs.y, z: self.z - rhs.z }
    }

    /// Componentwise product with a fixed-point scalar.
    pub fn scale(&self, s: i64) -> (r: Vector3)
        requires
            in_range(*self, VMAX as int),
            -VMAX <= s <= VMAX,
        ensures
            r.x == mul_fx_spec(self.x as int, s as int),
            r.y == mul_fx_spec(self.y as int, s as int),
            r.z == mul_fx_spec(self.z as int, s as int),
            r == vscale_spec(*self, s as int),
    {
        proof {
            lemma_mul_bound(self.x as int, s as int, VMAX as int, VMAX as int);
            lemma_mul_bound(self.y as int, s as int, VMAX as int, VMAX as int);
            lemma_mul_bound(self.z as int, s as int, VMAX as int, VMAX as int);
        }
        Vector3 { x: mul_fx(self.x, s), y: mul_fx(self.y, s), z: mul_fx(self.z, s) }
    }

    /// Fixed-point dot product: the wide sum scaled back down once.
    pub fn dot(&self, rhs: &Vector3) -> (r: i64)
        requires
            in_range(*self, VMAX as int),
            in_range(*rhs, VMAX as int),
        ensures
            r == tdiv(dot_wide(*self, *rhs), SCALE as int),
    {
        proof {
            lemma_dot_wide_bound(*self, *rhs, VMAX as int);
            lemma_mul_bound(self.x as int, rhs.x as int, VMAX as int, VMAX as int);
            lemma_mul_bound(self.y as int, rhs.y as int, VMAX as int, VMAX as int);
            lemma_mul_bound(self.z as int, rhs.z as int, VMAX as int, VMAX as int);
        }
        let p: i128 = (self.x as i128) * (rhs.x as i128) + (self.y as i128) * (rhs.y as i128) + (
        self.z as i128) * (rhs.z as i128);
        let q: i128 = p / (SCALE as i128);
        q as i64
    }

    /// Fixed-point squared length.
    pub fn squared_len(&self) -> (r: i64)
        requires
            in_range(*self, VMAX as int),
        ensures
            r == tdiv(len2_wide(*self), SCALE as int),
    {
        self.dot(self)
    }

    /// Fixed-point length: the exact integer square root of the wide squared
    /// length (the two `SCALE` factors under the root yield one).
    pub fn length(&self) -> (r: i64)
        requires
            in_range(*self, LMAX as int),
        ensures
            r == sqrt_floor(len2_wide(*self) as nat),
            r >= 0,
    {
        proof {
            lemma_dot_wide_bound(*self, *self, LMAX as int);
            lemma_mul_bound(self.x as int, self.x as int, LMAX as int, LMAX as int);
            lemma_mul_bound(self.y as int, self.y as int, LMAX as int, LMAX as int);
            lemma_mul_bound(self.z as int, self.z as int, LMAX as int, LMAX as int);
            lemma_len2_nonneg(*self);
            lemma_sqrt_floor(len2_wide(*self) as nat);
            assert(sqrt_floor(len2_wide(*self) as nat) < 0x8000000000000000) by (nonlinear_arith)
                requires
                    sqrt_floor(len2_wide(*self) as nat) * sqrt_floor(len2_wide(*self) as nat)
                        <= len2_wide(*self),
                    len2_wide(*self) <= 3 * (LMAX as int * LMAX as int),
            ;
        }
        let p: u128 = ((self.x as i128) * (self.x as i128) + (self.y as i128) * (self.y as i128) + (
        self.z as i128) * (self.z as i128)) as u128;
        let r: u64 = crate::fx::isqrt(p);
        r as i64
    }

    /// The unit vector along `self`: each component is `c * SCALE / length`,
    /// truncated toward zero, so every result component lies in
    /// `[-SCALE, SCALE]`.
    pub fn unit(&self) -> (r: Vector3)
        requires
            in_range(*self, LMAX as int),
            len2_wide(*self) > 0,
        ensures
            ({
                let l = sqrt_floor(len2_wide(*self) as nat) as int;
                &&& r.x == tdiv(self.x * SCALE, l)
                &&& r.y == tdiv(self.y * SCALE, l)
                &&& r.z == tdiv(self.z * SCALE, l)
                &&& in_range(r, SCALE as int)
                &&& r == unit_spec(*self)
            }),
    {
        let l: i64 = self.length();
        proof {
            lemma_len2_nonneg(*self);
            lemma_sqrt_floor(len2_wide(*self) as nat);
            let li = l as int;
            assert(li >= 1) by (nonlinear_arith)
                requires
                    li >= 0,
                    li * li <= len2_wide(*self) < (li + 1) * (li + 1),
                    len2_wide(*self) > 0,
            ;
            lemma_component_le_length(self.x as int, len2_wide(*self), li);
            lemma_component_le_length(self.y as int, len2_wide(*self), li);
            lemma_component_le_length(self.z as int, len2_wide(*self), li);
            lemma_unit_component(self.x as int, li);
            lemma_unit_component(self.y as int, li);
            lemma_unit_component(self.z as int, li);
        }
        Vector3 {
            x: div_unit(self.x, l),
            y: div_unit(self.y, l),
            z: div_unit(self.z, l),
        }
    }

    /// `unit`, except that a vector of zero length (which has no unit form)
    /// is returned unchanged.
    pub fn unit_safe(&self) -> (r: Vector3)
        requires
            in_range(*self, LMAX as int),
        ensures
            r == safe_unit_spec(*self),
            len2_wide(*self) > 0 ==> in_range(r, SCALE as int),
    {
        proof {
            lemma_dot_wide_bound(*self, *self, LMAX as int);
            lemma_mul_bound(self.x as int, self.x as int, LMAX as int, LMAX as int);
            lemma_mul_bound(self.y as int, self.y as int, LMAX as int, LMAX as int);
            lemma_mul_bound(self.z as int, self.z as int, LMAX as int, LMAX as int);
            lemma_len2_nonneg(*self);
        }
        let p: i128 = (self.x as i128) * (self.x as i128) + (self.y as i128) * (self.y as i128) + (
        self.z as i128) * (self.z as i128);
        if p > 0 {
            self.unit()
        } else {
            *self
        }
    }

    /// Cross product by the right-hand rule, each component a difference of
    /// two fixed-point products.
    pub fn cross(&self, rhs: &Vector3) -> (r: Vector3)
        requires
            in_range(*self, VMAX as int),
            in_range(*rhs, VMAX as int),
        ensures
            r.x == mul_fx_spec(self.y as int, rhs.z as int) - mul_fx_spec(
                self.z as int,
                rhs.y as int,
            ),
            r.y == mul_fx_spec(self.z as int, rhs.x as int) - mul_fx_spec(
                self.x as int,
                rhs.z as int,
            ),
            r.z == mul_fx_spec(self.x as int, rhs.y as int) - mul_fx_spec(
                self.y as int,
                rhs.x as int,
            ),
            r == cross_spec(*self, *rhs),
            in_range(r, 0x2000000000000000),
    {
        proof {
            lemma_mul_bound(self.y as int, rhs.z as int, VMAX as int, VMAX as int);
            lemma_mul_bound(self.z as int, rhs.y as int, VMAX as int, VMAX as int);
            lemma_mul_bound(self.z as int, rhs.x as int, VMAX as int, VMAX as int);
            lemma_mul_bound(self.x as int, rhs.z as int, VMAX as int, VMAX as int);
            lemma_mul_bound(self.x as int, rhs.y as int, VMAX as int, VMAX as int);
            lemma_mul_bound(self.y as int, rhs.x as int, VMAX as int, VMAX as int);
        }
        Vector3 {
            x: mul_fx(self.y, rhs.z) - mul_fx(self.z, rhs.y),
            y: mul_fx(self.z, rhs.x) - mul_fx(self.x, rhs.z),
            z: mul_fx(self.x, rhs.y) - mul_fx(self.y, rhs.x),
        }
    }

    /// Componentwise linear interpolation toward `rhs`.
    pub fn lerp(&self, t: i64, rhs: &Vector3) -> (r: Vector3)
        requires
            in_range(*self, VMAX as int),
            in_range(*rhs, VMAX as int),
            -VMAX <= t <= VMAX,
        ensures
            r.x == self.x + mul_fx_spec(rhs.x - self.x, t as int),
            r.y == self.y + mul_fx_spec(rhs.y - self.y, t as int),
            r.z == self.z + mul_fx_spec(rhs.z - self.z, t as int),
    {
        proof {
            lemma_mul_bound(rhs.x - self.x, t as int, 2 * VMAX as int, VMAX as int);
            lemma_mul_bound(rhs.y - self.y, t as int, 2 * VMAX as int, VMAX as int);
            lemma_mul_bound(rhs.z - self.z, t as int, 2 * VMAX as int, VMAX as int);
            crate::fx::lemma_tdiv_bound((rhs.x - self.x) * t, SCALE as int);
            crate::fx::lemma_tdiv_bound((rhs.y - self.y) * t, SCALE as int);
            crate::fx::lemma_tdiv_bound((rhs.z - self.z) * t, SCALE as int);
        }
        Vector3 {
            x: self.x + mul_fx(rhs.x - self.x, t),
            y: self.y + mul_fx(rhs.y - self.y, t),
            z: self.z + mul_fx(rhs.z - self.z, t),
        }
    }
}

/// One component's magnitude bound gives the unit-division overflow bound.
proof fn lemma_unit_component(c: int, l: int)
    by (nonlinear_arith)
    requires
        l >= 1,
        -l <= c <= l,
    ensures
        -(SCALE as int) <= tdiv(c * SCALE, l) <= SCALE as int,
        -0x7fffffffffffffff <= crate::fx::div_fx_spec(c, l) <= 0x7fffffffffffffff,
{
}

/// Divide one component by the vector length (both raw), yielding a raw
/// component of the unit vector.
fn div_unit(c: i64, l: i64) -> (r: i64)
    requires
        l >= 1,
        -l <= c <= l,
    ensures
        r == tdiv(c * SCALE, l as int),
{
    proof {
        lemma_unit_component(c as int, l as int);
    }
    div_fx(c, l)
}

/// Extend a point with a unit homogeneous coordinate.
pub fn make_pos(vec3: &Vector3) -> (r: Vector4)
    ensures
        r == (Vector4 { x: vec3.x, y: vec3.y, z: vec3.z, w: SCALE as i64 }),
{
    Vector4 { x: vec3.x, y: vec3.y, z: vec3.z, w: SCALE }
}

/// Extend a direction with a zero homogeneous coordinate.
pub fn make_dir(vec3: &Vector3) -> (r: Vector4)
    ensures
        r == (Vector4 { x: vec3.x, y: vec3.y, z: vec3.z, w: 0i64 }),
{
    Vector4 { x: vec3.x, y: vec3.y, z: vec3.z, w: 0 }
}

} // verus!
