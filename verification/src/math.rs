//! Fixed-point scalar, vector and matrix arithmetic used by the controllers.
//!
//! Scalars are `i64` values scaled by [`crate::UNIT`]: one world unit (or one
//! radian) is `UNIT` micro-units. Division rounds toward zero, as hardware
//! division does, and the square root rounds down; both are specified exactly.

use vstd::prelude::*;
use vstd::arithmetic::div_mod::lemma_div_is_ordered;
use vstd::arithmetic::div_mod::lemma_div_multiples_vanish;
use vstd::arithmetic::div_mod::lemma_div_pos_is_pos;
use vstd::arithmetic::div_mod::lemma_fundamental_div_mod;

verus! {

/// Truncating (round-toward-zero) division by a positive divisor: the result
/// of the machine division `a / b` on signed integers.
pub open spec fn tdiv(a: int, b: int) -> int {
    if a >= 0 {
        a / b
    } else {
        -((-a) / b)
    }
}

/// Machine division of `a` by a positive `b`, rounding toward zero.
pub fn div_trunc(a: i64, b: i64) -> (q: i64)
    requires
        0 < b,
        i64::MIN < a,
    ensures
        q == tdiv(a as int, b as int),
{
    if a >= 0 {
        let qa: u64 = (a as u64) / (b as u64);
        proof {
            lemma_div_pos_is_pos(a as int, b as int);
            lemma_div_is_ordered(a as int, a as int, b as int);
            vstd::arithmetic::div_mod::lemma_div_nonincreasing(a as int, b as int);
        }
        qa as i64
    } else {
        let na: i64 = -a;
        let qn: u64 = (na as u64) / (b as u64);
        proof {
            lemma_div_pos_is_pos(na as int, b as int);
            vstd::arithmetic::div_mod::lemma_div_nonincreasing(na as int, b as int);
        }
        -(qn as i64)
    }
}

/// Bounds the magnitude of a truncating quotient: if `|a| <= k * b` then
/// `|tdiv(a, b)| <= k`.
pub proof fn lemma_tdiv_le(a: int, b: int, k: int)
    requires
        0 < b,
        0 <= k,
        -(k * b) <= a <= k * b,
    ensures
        -k <= tdiv(a, b) <= k,
{
    vstd::arithmetic::mul::lemma_mul_is_commutative(k, b);
    if a >= 0 {
        lemma_div_pos_is_pos(a, b);
        lemma_div_is_ordered(a, k * b, b);
        lemma_div_multiples_vanish(k, b);
    } else {
        lemma_div_pos_is_pos(-a, b);
        lemma_div_is_ordered(-a, k * b, b);
        lemma_div_multiples_vanish(k, b);
    }
}

/// `r` is the floor of the square root of `n`.
pub open spec fn is_sqrt_floor(n: int, r: int) -> bool {
    &&& 0 <= r
    &&& r * r <= n
    &&& n < (r + 1) * (r + 1)
}

/// The floor of the square root of a non-negative `n`.
pub open spec fn sqrt_floor(n: int) -> int {
    choose|r: int| is_sqrt_floor(n, r)
}

/// Every non-negative integer has a square-root floor, and `sqrt_floor`
/// denotes it.
pub proof fn lemma_sqrt_floor_exists(n: nat)
    ensures
        is_sqrt_floor(n as int, sqrt_floor(n as int)),
    decreases n,
{
    if n == 0 {
        assert(is_sqrt_floor(0, 0));
    } else {
        lemma_sqrt_floor_exists((n - 1) as nat);
        let r = sqrt_floor(n - 1);
        assert(is_sqrt_floor(n - 1, r));
        if n < (r + 1) * (r + 1) {
            assert(is_sqrt_floor(n as int, r));
        } else {
            assert(n == (r + 1) * (r + 1));
            assert(n < (r + 2) * (r + 2)) by (nonlinear_arith)
                requires
                    n == (r + 1) * (r + 1),
                    r >= 0,
            ;
            assert(is_sqrt_floor(n as int, r + 1));
        }
    }
}

/// The square-root floor is unique.
pub proof fn lemma_sqrt_floor_unique(n: int, r: int)
    requires
        is_sqrt_floor(n, r),
    ensures
        r == sqrt_floor(n),
{
    let s = sqrt_floor(n);
    assert(is_sqrt_floor(n, s));
    if r < s {
        assert((r + 1) * (r + 1) <= s * s) by (nonlinear_arith)
            requires
                0 <= r,
                r < s,
        ;
    } else if s < r {
        assert((s + 1) * (s + 1) <= r * r) by (nonlinear_arith)
            requires
                0 <= s,
                s < r,
        ;
    }
}

/// Floor of the square root of `n`, by bisection.
pub fn isqrt(n: u64) -> (r: u64)
    ensures
        r == sqrt_floor(n as int),
        is_sqrt_floor(n as int, r as int),
{
    let mut lo: u64 = 0;
    let mut hi: u64 = 4_294_967_296;
    assert((4_294_967_296int) * 4_294_967_296 > n);
    while lo + 1 < hi
        invariant
            lo < hi <= 4_294_967_296,
            (lo as int) * (lo as int) <= n as int,
            (n as int) < (hi as int) * (hi as int),
        decreases hi - lo,
    {
        let mid: u64 = lo + (hi - lo) / 2;
        assert((mid as int) * (mid as int) < 0x1_0000_0000_0000_0000int) by (nonlinear_arith)
            requires
                mid < 4_294_967_296,
        ;
        if mid * mid <= n {
            lo = mid;
        } else {
            hi = mid;
        }
    }
    proof {
        lemma_sqrt_floor_unique(n as int, lo as int);
    }
    lo
}

/// A three-component fixed-point vector: positions and directions in
/// micro-units.
#[derive(Clone, Copy, PartialEq, Eq, Structural, Debug)]
pub struct Vec3 {
    pub x: i64,
    pub y: i64,
    pub z: i64,
}

impl Vec3 {
    /// The zero vector.
    pub fn zero() -> (v: Vec3)
        ensures
            v == (Vec3 { x: 0, y: 0, z: 0 }),
    {
        Vec3 { x: 0, y: 0, z: 0 }
    }

    /// The squared Euclidean length, as a mathematical integer.
    pub open spec fn sq_len(self) -> int {
        self.x * self.x + self.y * self.y + self.z * self.z
    }

    /// All three components are within `c` of zero.
    pub open spec fn bounded(self, c: int) -> bool {
        &&& -c <= self.x <= c
        &&& -c <= self.y <= c
        &&& -c <= self.z <= c
    }
}

/// A fixed-point 3x3 matrix, row major: entry `mRC` is row `R`, column `C`,
/// scaled by [`crate::UNIT`]. The host supplies the camera's world rotation
/// in this form; its columns are the camera's world basis vectors.
#[derive(Clone, Copy, PartialEq, Eq, Structural, Debug)]
pub struct Mat3 {
    pub m00: i64,
    pub m01: i64,
    pub m02: i64,
    pub m10: i64,
    pub m11: i64,
    pub m12: i64,
    pub m20: i64,
    pub m21: i64,
    pub m22: i64,
}

/// Largest matrix entry magnitude the controllers accept. A rotation matrix
/// has entries within one unit; the slack keeps the bound a loose machine
/// limit rather than a shape assumption.
pub const MAT_LIMIT: i64 = 2 * crate::UNIT;

impl Mat3 {
    /// Every entry is within [`MAT_LIMIT`] of zero.
    pub open spec fn in_bounds(self) -> bool {
        &&& -MAT_LIMIT <= self.m00 <= MAT_LIMIT
        &&& -MAT_LIMIT <= self.m01 <= MAT_LIMIT
        &&& -MAT_LIMIT <= self.m02 <= MAT_LIMIT
        &&& -MAT_LIMIT <= self.m10 <= MAT_LIMIT
        &&& -MAT_LIMIT <= self.m11 <= MAT_LIMIT
        &&& -MAT_LIMIT <= self.m12 <= MAT_LIMIT
        &&& -MAT_LIMIT <= self.m20 <= MAT_LIMIT
        &&& -MAT_LIMIT <= self.m21 <= MAT_LIMIT
        &&& -MAT_LIMIT <= self.m22 <= MAT_LIMIT
    }

    /// The identity rotation.
    pub fn identity() -> (m: Mat3)
        ensures
            m == Mat3::identity_spec(),
    {
        Mat3 {
            m00: crate::UNIT,
            m01: 0,
            m02: 0,
            m10: 0,
            m11: crate::UNIT,
            m12: 0,
            m20: 0,
            m21: 0,
            m22: crate::UNIT,
        }
    }

    /// The identity rotation, as a spec value.
    pub open spec fn identity_spec() -> Mat3 {
        Mat3 {
            m00: crate::UNIT,
            m01: 0,
            m02: 0,
            m10: 0,
            m11: crate::UNIT,
            m12: 0,
            m20: 0,
            m21: 0,
            m22: crate::UNIT,
        }
    }

    /// The third basis column: the image of the `+Z` unit vector, which for a
    /// camera rotation is its backward (local-Z) direction.
    pub open spec fn local_z_spec(self) -> Vec3 {
        Vec3 { x: self.m02, y: self.m12, z: self.m22 }
    }

    /// Reads the third basis column, the camera's backward direction.
    pub fn local_z(&self) -> (v: Vec3)
        ensures
            v == self.local_z_spec(),
    {
        Vec3 { x: self.m02, y: self.m12, z: self.m22 }
    }
}

/// Fixed-point matrix-vector product: each component is the dot product of a
/// row with `(vx, vy, vz)`, scaled back down by `UNIT` with truncating
/// division.
pub open spec fn rotate_spec(m: Mat3, vx: int, vy: int, vz: int) -> (int, int, int) {
    (
        tdiv(m.m00 * vx + m.m01 * vy + m.m02 * vz, crate::UNIT as int),
        tdiv(m.m10 * vx + m.m11 * vy + m.m12 * vz, crate::UNIT as int),
        tdiv(m.m20 * vx + m.m21 * vy + m.m22 * vz, crate::UNIT as int),
    )
}

/// Applies the rotation `m` to `v` in fixed point.
pub fn rotate(m: &Mat3, v: &Vec3) -> (r: Vec3)
    requires
        m.in_bounds(),
        v.bounded(2 * crate::UNIT),
    ensures
        (r.x as int, r.y as int, r.z as int) == rotate_spec(*m, v.x as int, v.y as int, v.z as int),
        r.bounded(12 * crate::UNIT),
{
    proof {
        lemma_rotate_row_bound(m.m00 as int, m.m01 as int, m.m02 as int, v.x as int, v.y as int, v.z as int);
        lemma_rotate_row_bound(m.m10 as int, m.m11 as int, m.m12 as int, v.x as int, v.y as int, v.z as int);
        lemma_rotate_row_bound(m.m20 as int, m.m21 as int, m.m22 as int, v.x as int, v.y as int, v.z as int);
    }
    let dx: i64 = m.m00 * v.x + m.m01 * v.y + m.m02 * v.z;
    let dy: i64 = m.m10 * v.x + m.m11 * v.y + m.m12 * v.z;
    let dz: i64 = m.m20 * v.x + m.m21 * v.y + m.m22 * v.z;
    let rx = div_trunc(dx, crate::UNIT);
    let ry = div_trunc(dy, crate::UNIT);
    let rz = div_trunc(dz, crate::UNIT);
    proof {
        lemma_tdiv_le(dx as int, crate::UNIT as int, 12 * crate::UNIT as int);
        lemma_tdiv_le(dy as int, crate::UNIT as int, 12 * crate::UNIT as int);
        lemma_tdiv_le(dz as int, crate::UNIT as int, 12 * crate::UNIT as int);
    }
    Vec3 { x: rx, y: ry, z: rz }
}

/// Bounds one row's dot product: with entries within `2 * UNIT` and vector
/// components within `2 * UNIT`, the sum is within `12 * UNIT * UNIT`.
proof fn lemma_rotate_row_bound(a: int, b: int, c: int, x: int, y: int, z: int)
    requires
        -(2 * crate::UNIT as int) <= a <= 2 * crate::UNIT as int,
        -(2 * crate::UNIT as int) <= b <= 2 * crate::UNIT as int,
        -(2 * crate::UNIT as int) <= c <= 2 * crate::UNIT as int,
        -(2 * crate::UNIT as int) <= x <= 2 * crate::UNIT as int,
        -(2 * crate::UNIT as int) <= y <= 2 * crate::UNIT as int,
        -(2 * crate::UNIT as int) <= z <= 2 * crate::UNIT as int,
    ensures
        -(4 * (crate::UNIT as int) * (crate::UNIT as int)) <= a * x <= 4 * (crate::UNIT as int) * (
        crate::UNIT as int),
        -(4 * (crate::UNIT as int) * (crate::UNIT as int)) <= b * y <= 4 * (crate::UNIT as int) * (
        crate::UNIT as int),
        -(4 * (crate::UNIT as int) * (crate::UNIT as int)) <= c * z <= 4 * (crate::UNIT as int) * (
        crate::UNIT as int),
        -(12 * (crate::UNIT as int) * (crate::UNIT as int)) <= a * x + b * y + c * z
            <= 12 * (crate::UNIT as int) * (crate::UNIT as int),
{
    assert(-(4 * (crate::UNIT as int) * (crate::UNIT as int)) <= a * x <= 4 * (crate::UNIT as int)
        * (crate::UNIT as int)) by (nonlinear_arith)
        requires
            -(2 * crate::UNIT as int) <= a <= 2 * crate::UNIT as int,
            -(2 * crate::UNIT as int) <= x <= 2 * crate::UNIT as int,
    ;
    assert(-(4 * (crate::UNIT as int) * (crate::UNIT as int)) <= b * y <= 4 * (crate::UNIT as int)
        * (crate::UNIT as int)) by (nonlinear_arith)
        requires
            -(2 * crate::UNIT as int) <= b <= 2 * crate::UNIT as int,
            -(2 * crate::UNIT as int) <= y <= 2 * crate::UNIT as int,
    ;
    assert(-(4 * (crate::UNIT as int) * (crate::UNIT as int)) <= c * z <= 4 * (crate::UNIT as int)
        * (crate::UNIT as int)) by (nonlinear_arith)
        requires
            -(2 * crate::UNIT as int) <= c <= 2 * crate::UNIT as int,
            -(2 * crate::UNIT as int) <= z <= 2 * crate::UNIT as int,
    ;
}

} // verus!
