//! Three- and four-component fixed-point vectors.
//!
//! Executable vectors carry `i64` raw components; their mathematical models
//! (`Vec3i`, `Vec4i`) carry unbounded integers, and every operation is pinned
//! to a spec-level mirror over the model.

use vstd::prelude::*;

use crate::fixed::div_trunc;
use crate::fixed::fx_mul_spec;
use crate::fixed::i128_div_trunc;
use crate::fixed::lemma_div_trunc_le;
use crate::fixed::lemma_mul_le_abs;
use crate::fixed::is_sqrt_floor;
use crate::fixed::sqrt_ceil;
use crate::fixed::sqrt_floor;
use crate::fixed::u128_sqrt_ceil;

verus! {

/// Largest component magnitude accepted by the vector operations (2^38 raw):
/// keeps dot products inside `i64` after the fixed-point scale-down.
pub const VEC_LIMIT: i64 = 0x40_0000_0000;

/// The mathematical model of a three-component vector.
pub ghost struct Vec3i {
    pub x: int,
    pub y: int,
    pub z: int,
}

/// The mathematical model of a four-component (homogeneous) vector.
pub ghost struct Vec4i {
    pub x: int,
    pub y: int,
    pub z: int,
    pub w: int,
}

/// A three-component vector of fixed-point coordinates.
#[derive(Clone, Copy, PartialEq, Eq, Structural, Debug)]
pub struct FxVec3 {
    pub x: i64,
    pub y: i64,
    pub z: i64,
}

/// A four-component homogeneous vector of fixed-point coordinates.
#[derive(Clone, Copy, PartialEq, Eq, Structural, Debug)]
pub struct FxVec4 {
    pub x: i64,
    pub y: i64,
    pub z: i64,
    pub w: i64,
}

impl View for FxVec3 {
    type V = Vec3i;

    open spec fn view(&self) -> Vec3i {
        Vec3i { x: self.x as int, y: self.y as int, z: self.z as int }
    }
}

impl View for FxVec4 {
    type V = Vec4i;

    open spec fn view(&self) -> Vec4i {
        Vec4i { x: self.x as int, y: self.y as int, z: self.z as int, w: self.w as int }
    }
}

impl FxVec3 {
    /// Builds a vector from raw fixed-point coordinates.
    pub fn new(x: i64, y: i64, z: i64) -> (r: FxVec3)
        ensures
            r@ == (Vec3i { x: x as int, y: y as int, z: z as int }),
    {
        FxVec3 { x, y, z }
    }
}

/// All three components lie within `m`.
pub open spec fn v3_bounded(v: Vec3i, m: int) -> bool {
    -m <= v.x <= m && -m <= v.y <= m && -m <= v.z <= m
}

/// All four components lie within `m`.
pub open spec fn v4_bounded(v: Vec4i, m: int) -> bool {
    -m <= v.x <= m && -m <= v.y <= m && -m <= v.z <= m && -m <= v.w <= m
}

/// Componentwise difference.
pub open spec fn v3_sub_spec(a: Vec3i, b: Vec3i) -> Vec3i {
    Vec3i { x: a.x - b.x, y: a.y - b.y, z: a.z - b.z }
}

/// Componentwise sum.
pub open spec fn v3_add_spec(a: Vec3i, b: Vec3i) -> Vec3i {
    Vec3i { x: a.x + b.x, y: a.y + b.y, z: a.z + b.z }
}

/// A vector scaled by a fixed-point factor, componentwise.
pub open spec fn v3_scale_spec(v: Vec3i, s: int) -> Vec3i {
    Vec3i { x: fx_mul_spec(v.x, s), y: fx_mul_spec(v.y, s), z: fx_mul_spec(v.z, s) }
}

/// The dot product of two fixed-point vectors, scaled back down once.
pub open spec fn dot3_spec(a: Vec3i, b: Vec3i) -> int {
    div_trunc(a.x * b.x + a.y * b.y + a.z * b.z, 65536)
}

/// The dot product of two homogeneous fixed-point vectors.
pub open spec fn dot4_spec(a: Vec4i, b: Vec4i) -> int {
    div_trunc(a.x * b.x + a.y * b.y + a.z * b.z + a.w * b.w, 65536)
}

/// The cross product of two fixed-point vectors, each component scaled back
/// down once.
pub open spec fn cross3_spec(a: Vec3i, b: Vec3i) -> Vec3i {
    Vec3i {
        x: div_trunc(a.y * b.z - a.z * b.y, 65536),
        y: div_trunc(a.z * b.x - a.x * b.z, 65536),
        z: div_trunc(a.x * b.y - a.y * b.x, 65536),
    }
}

/// The squared Euclidean norm, at raw-squared scale (no scale-down).
pub open spec fn norm2_spec(v: Vec3i) -> int {
    v.x * v.x + v.y * v.y + v.z * v.z
}

/// The Euclidean length of a fixed-point vector, rounded up: the raw length
/// of `v` in fixed-point is exactly the square root of the raw squared norm.
pub open spec fn len_ceil_spec(v: Vec3i) -> int {
    sqrt_ceil(norm2_spec(v))
}

/// The vector scaled to (at most) unit length: each component is divided by
/// the rounded-up length.
pub open spec fn v3_normalize_spec(v: Vec3i) -> Vec3i
    recommends
        len_ceil_spec(v) > 0,
{
    let s = len_ceil_spec(v);
    Vec3i {
        x: div_trunc(v.x * 65536, s),
        y: div_trunc(v.y * 65536, s),
        z: div_trunc(v.z * 65536, s),
    }
}

/// Componentwise difference.
pub fn v3_sub(a: FxVec3, b: FxVec3) -> (r: FxVec3)
    requires
        v3_bounded(a@, 0x2000_0000_0000_0000),
        v3_bounded(b@, 0x2000_0000_0000_0000),
    ensures
        r@ == v3_sub_spec(a@, b@),
{
    FxVec3 { x: a.x - b.x, y: a.y - b.y, z: a.z - b.z }
}

/// Componentwise sum.
pub fn v3_add(a: FxVec3, b: FxVec3) -> (r: FxVec3)
    requires
        v3_bounded(a@, 0x2000_0000_0000_0000),
        v3_bounded(b@, 0x2000_0000_0000_0000),
    ensures
        r@ == v3_add_spec(a@, b@),
{
    FxVec3 { x: a.x + b.x, y: a.y + b.y, z: a.z + b.z }
}

/// Scales a vector by a fixed-point factor.
pub fn v3_scale(v: FxVec3, s: i64) -> (r: FxVec3)
    requires
        v3_bounded(v@, VEC_LIMIT as int),
        -VEC_LIMIT <= s <= VEC_LIMIT,
    ensures
        r@ == v3_scale_spec(v@, s as int),
{
    proof {
        lemma_mul_le_abs(v@.x, s as int, VEC_LIMIT as int, VEC_LIMIT as int);
        lemma_mul_le_abs(v@.y, s as int, VEC_LIMIT as int, VEC_LIMIT as int);
        lemma_mul_le_abs(v@.z, s as int, VEC_LIMIT as int, VEC_LIMIT as int);
        lemma_div_trunc_le(v@.x * s, 65536, 0x1000_0000_0000_0000);
        lemma_div_trunc_le(v@.y * s, 65536, 0x1000_0000_0000_0000);
        lemma_div_trunc_le(v@.z * s, 65536, 0x1000_0000_0000_0000);
    }
    let x = i128_div_trunc((v.x as i128) * (s as i128), 65536);
    let y = i128_div_trunc((v.y as i128) * (s as i128), 65536);
    let z = i128_div_trunc((v.z as i128) * (s as i128), 65536);
    FxVec3 { x: x as i64, y: y as i64, z: z as i64 }
}

/// The dot product of two fixed-point vectors.
pub fn v3_dot(a: FxVec3, b: FxVec3) -> (r: i64)
    requires
        v3_bounded(a@, VEC_LIMIT as int),
        v3_bounded(b@, VEC_LIMIT as int),
    ensures
        r == dot3_spec(a@, b@),
{
    proof {
        lemma_mul_le_abs(a@.x, b@.x, VEC_LIMIT as int, VEC_LIMIT as int);
        lemma_mul_le_abs(a@.y, b@.y, VEC_LIMIT as int, VEC_LIMIT as int);
        lemma_mul_le_abs(a@.z, b@.z, VEC_LIMIT as int, VEC_LIMIT as int);
    }
    let s: i128 = (a.x as i128) * (b.x as i128) + (a.y as i128) * (b.y as i128) + (a.z as i128) * (
    b.z as i128);
    proof {
        lemma_div_trunc_le(s as int, 65536, 0x3000_0000_0000_0000);
    }
    let q = i128_div_trunc(s, 65536);
    q as i64
}

/// The dot product of two homogeneous fixed-point vectors.
pub fn v4_dot(a: FxVec4, b: FxVec4) -> (r: i64)
    requires
        v4_bounded(a@, VEC_LIMIT as int),
        v4_bounded(b@, VEC_LIMIT as int),
    ensures
        r == dot4_spec(a@, b@),
{
    proof {
        lemma_mul_le_abs(a@.x, b@.x, VEC_LIMIT as int, VEC_LIMIT as int);
        lemma_mul_le_abs(a@.y, b@.y, VEC_LIMIT as int, VEC_LIMIT as int);
        lemma_mul_le_abs(a@.z, b@.z, VEC_LIMIT as int, VEC_LIMIT as int);
        lemma_mul_le_abs(a@.w, b@.w, VEC_LIMIT as int, VEC_LIMIT as int);
    }
    let s: i128 = (a.x as i128) * (b.x as i128) + (a.y as i128) * (b.y as i128) + (a.z as i128) * (
    b.z as i128) + (a.w as i128) * (b.w as i128);
    proof {
        lemma_div_trunc_le(s as int, 65536, 0x4000_0000_0000_0000);
    }
    let q = i128_div_trunc(s, 65536);
    q as i64
}

/// The cross product of two fixed-point vectors.
pub fn v3_cross(a: FxVec3, b: FxVec3) -> (r: FxVec3)
    requires
        v3_bounded(a@, VEC_LIMIT as int),
        v3_bounded(b@, VEC_LIMIT as int),
    ensures
        r@ == cross3_spec(a@, b@),
{
    proof {
        lemma_mul_le_abs(a@.y, b@.z, VEC_LIMIT as int, VEC_LIMIT as int);
        lemma_mul_le_abs(a@.z, b@.y, VEC_LIMIT as int, VEC_LIMIT as int);
        lemma_mul_le_abs(a@.z, b@.x, VEC_LIMIT as int, VEC_LIMIT as int);
        lemma_mul_le_abs(a@.x, b@.z, VEC_LIMIT as int, VEC_LIMIT as int);
        lemma_mul_le_abs(a@.x, b@.y, VEC_LIMIT as int, VEC_LIMIT as int);
        lemma_mul_le_abs(a@.y, b@.x, VEC_LIMIT as int, VEC_LIMIT as int);
        lemma_div_trunc_le(a@.y * b@.z - a@.z * b@.y, 65536, 0x2000_0000_0000_0000);
        lemma_div_trunc_le(a@.z * b@.x - a@.x * b@.z, 65536, 0x2000_0000_0000_0000);
        lemma_div_trunc_le(a@.x * b@.y - a@.y * b@.x, 65536, 0x2000_0000_0000_0000);
    }
    let x = i128_div_trunc((a.y as i128) * (b.z as i128) - (a.z as i128) * (b.y as i128), 65536);
    let y = i128_div_trunc((a.z as i128) * (b.x as i128) - (a.x as i128) * (b.z as i128), 65536);
    let z = i128_div_trunc((a.x as i128) * (b.y as i128) - (a.y as i128) * (b.x as i128), 65536);
    FxVec3 { x: x as i64, y: y as i64, z: z as i64 }
}

/// The Euclidean length of a fixed-point vector, rounded up.
pub fn v3_len_ceil(v: FxVec3) -> (r: i64)
    requires
        v3_bounded(v@, VEC_LIMIT as int),
    ensures
        r == len_ceil_spec(v@),
        0 <= r <= 0x80_0000_0000,
{
    proof {
        lemma_mul_le_abs(v@.x, v@.x, VEC_LIMIT as int, VEC_LIMIT as int);
        lemma_mul_le_abs(v@.y, v@.y, VEC_LIMIT as int, VEC_LIMIT as int);
        lemma_mul_le_abs(v@.z, v@.z, VEC_LIMIT as int, VEC_LIMIT as int);
        assert(v@.x * v@.x >= 0 && v@.y * v@.y >= 0 && v@.z * v@.z >= 0) by (nonlinear_arith);
    }
    let xs: u128 = ((v.x as i128) * (v.x as i128)) as u128;
    let ys: u128 = ((v.y as i128) * (v.y as i128)) as u128;
    let zs: u128 = ((v.z as i128) * (v.z as i128)) as u128;
    let s = u128_sqrt_ceil(xs + ys + zs);
    proof {
        assert(s <= 0x80_0000_0000) by (nonlinear_arith)
            requires
                (s as int - 1) * (s as int - 1) < (xs + ys + zs) as int || s == 0,
                xs + ys + zs <= 0x3000_0000_0000_0000_0000u128,
        ;
    }
    s as i64
}

/// Scales a nonzero vector to (at most) unit length.
pub fn v3_normalize(v: FxVec3) -> (r: FxVec3)
    requires
        v3_bounded(v@, VEC_LIMIT as int),
        len_ceil_spec(v@) > 0,
    ensures
        r@ == v3_normalize_spec(v@),
        v3_bounded(r@, 65536),
        norm2_spec(r@) <= 0x1_0000_0000,
{
    let s = v3_len_ceil(v);
    proof {
        lemma_normalize_norm2_le(v@);
        lemma_normalize_bounded(v@);
    }
    let x = i128_div_trunc((v.x as i128) * 65536, s as i128);
    let y = i128_div_trunc((v.y as i128) * 65536, s as i128);
    let z = i128_div_trunc((v.z as i128) * 65536, s as i128);
    FxVec3 { x: x as i64, y: y as i64, z: z as i64 }
}

/// The rounded-up length dominates the true length: the squared norm never
/// exceeds the squared rounded-up length.
pub proof fn lemma_len_ceil_sq(v: Vec3i)
    ensures
        norm2_spec(v) <= len_ceil_spec(v) * len_ceil_spec(v),
        len_ceil_spec(v) >= 0,
{
    let n2 = norm2_spec(v);
    let s = len_ceil_spec(v);
    assert(v.x * v.x + v.y * v.y + v.z * v.z >= 0) by (nonlinear_arith);
    if n2 == 0 {
        assert(s == 0);
    } else {
        crate::fixed::lemma_sqrt_floor_exists(n2 - 1);
        assert(n2 <= s * s) by (nonlinear_arith)
            requires
                n2 > 0,
                s - 1 == sqrt_floor(n2 - 1),
                is_sqrt_floor(n2 - 1, s - 1),
        ;
    }
}

/// The cross product of two at-most-unit vectors stays within two units.
pub proof fn lemma_cross_unit_bounded(a: Vec3i, b: Vec3i)
    requires
        v3_bounded(a, 65536),
        v3_bounded(b, 65536),
    ensures
        v3_bounded(cross3_spec(a, b), 0x2_0000),
{
    lemma_mul_le_abs(a.y, b.z, 65536, 65536);
    lemma_mul_le_abs(a.z, b.y, 65536, 65536);
    lemma_mul_le_abs(a.z, b.x, 65536, 65536);
    lemma_mul_le_abs(a.x, b.z, 65536, 65536);
    lemma_mul_le_abs(a.x, b.y, 65536, 65536);
    lemma_mul_le_abs(a.y, b.x, 65536, 65536);
    lemma_div_trunc_le(a.y * b.z - a.z * b.y, 65536, 0x2_0000);
    lemma_div_trunc_le(a.z * b.x - a.x * b.z, 65536, 0x2_0000);
    lemma_div_trunc_le(a.x * b.y - a.y * b.x, 65536, 0x2_0000);
}

/// A dot product of bounded vectors is bounded once the component products
/// are covered by `m` scale-downs.
pub proof fn lemma_dot3_le(a: Vec3i, b: Vec3i, ma: int, mb: int, m: int)
    requires
        0 <= ma,
        0 <= mb,
        0 <= m,
        v3_bounded(a, ma),
        v3_bounded(b, mb),
        3 * (ma * mb) <= m * 65536,
    ensures
        -m <= dot3_spec(a, b) <= m,
{
    lemma_mul_le_abs(a.x, b.x, ma, mb);
    lemma_mul_le_abs(a.y, b.y, ma, mb);
    lemma_mul_le_abs(a.z, b.z, ma, mb);
    lemma_div_trunc_le(a.x * b.x + a.y * b.y + a.z * b.z, 65536, m);
}

/// The Lagrange identity on three components: the product of two squared
/// norms splits into the squared dot product plus the squared cross
/// product.
proof fn lemma_lagrange(ax: int, ay: int, az: int, bx: int, by: int, bz: int)
    ensures
        (ax * ax + ay * ay + az * az) * (bx * bx + by * by + bz * bz) == (ax * bx + ay * by + az
            * bz) * (ax * bx + ay * by + az * bz) + ((ay * bz - az * by) * (ay * bz - az * by) + (az
            * bx - ax * bz) * (az * bx - ax * bz) + (ax * by - ay * bx) * (ax * by - ay * bx)),
{
    let pxx = ax * bx;
    let pxy = ax * by;
    let pxz = ax * bz;
    let pyx = ay * bx;
    let pyy = ay * by;
    let pyz = ay * bz;
    let pzx = az * bx;
    let pzy = az * by;
    let pzz = az * bz;
    let qx = ax * ax;
    let qy = ay * ay;
    let qz = az * az;
    let rx = bx * bx;
    let ry = by * by;
    let rz = bz * bz;
    // Rank-one swaps: products of matching and crossed pairs agree.
    assert(pxx * pyy == pxy * pyx && pxx * pzz == pxz * pzx && pyy * pzz == pyz * pzy)
        by (nonlinear_arith)
        requires
            pxx == ax * bx,
            pyy == ay * by,
            pxy == ax * by,
            pyx == ay * bx,
            pzz == az * bz,
            pxz == ax * bz,
            pzx == az * bx,
            pyz == ay * bz,
            pzy == az * by,
    ;
    // The norm product expands bilinearly over the squared components.
    assert((qx + qy + qz) * (rx + ry + rz) == qx * rx + qx * ry + qx * rz + qy * rx + qy * ry + qy
        * rz + qz * rx + qz * ry + qz * rz) by (nonlinear_arith);
    // Each block is the square of one pairwise product.
    assert(qx * rx == pxx * pxx && qx * ry == pxy * pxy && qx * rz == pxz * pxz && qy * rx == pyx
        * pyx && qy * ry == pyy * pyy && qy * rz == pyz * pyz && qz * rx == pzx * pzx && qz * ry
        == pzy * pzy && qz * rz == pzz * pzz) by (nonlinear_arith)
        requires
            qx == ax * ax,
            qy == ay * ay,
            qz == az * az,
            rx == bx * bx,
            ry == by * by,
            rz == bz * bz,
            pxx == ax * bx,
            pxy == ax * by,
            pxz == ax * bz,
            pyx == ay * bx,
            pyy == ay * by,
            pyz == ay * bz,
            pzx == az * bx,
            pzy == az * by,
            pzz == az * bz,
    ;
    // Expand each square; the identity is then linear in the monomials,
    // with the swaps cancelling the mixed terms.
    assert((pxx + pyy + pzz) * (pxx + pyy + pzz) == pxx * pxx + pyy * pyy + pzz * pzz + 2 * (pxx
        * pyy) + 2 * (pxx * pzz) + 2 * (pyy * pzz)) by (nonlinear_arith);
    assert((pyz - pzy) * (pyz - pzy) == pyz * pyz + pzy * pzy - 2 * (pyz * pzy))
        by (nonlinear_arith);
    assert((pzx - pxz) * (pzx - pxz) == pzx * pzx + pxz * pxz - 2 * (pxz * pzx))
        by (nonlinear_arith);
    assert((pxy - pyx) * (pxy - pyx) == pxy * pxy + pyx * pyx - 2 * (pxy * pyx))
        by (nonlinear_arith);
    assert((pxx + pyy + pzz) * (pxx + pyy + pzz) + ((pyz - pzy) * (pyz - pzy) + (pzx - pxz) * (pzx
        - pxz) + (pxy - pyx) * (pxy - pyx)) == pxx * pxx + pxy * pxy + pxz * pxz + pyx * pyx + pyy
        * pyy + pyz * pyz + pzx * pzx + pzy * pzy + pzz * pzz);
}

/// The Cauchy-Schwarz inequality for the exact (unscaled) dot product, by
/// way of the Lagrange identity.
pub proof fn lemma_cauchy_schwarz(a: Vec3i, b: Vec3i)
    ensures
        (a.x * b.x + a.y * b.y + a.z * b.z) * (a.x * b.x + a.y * b.y + a.z * b.z) <= norm2_spec(a)
            * norm2_spec(b),
{
    lemma_lagrange(a.x, a.y, a.z, b.x, b.y, b.z);
    assert((a.y * b.z - a.z * b.y) * (a.y * b.z - a.z * b.y) >= 0 && (a.z * b.x - a.x * b.z) * (a.z
        * b.x - a.x * b.z) >= 0 && (a.x * b.y - a.y * b.x) * (a.x * b.y - a.y * b.x) >= 0)
        by (nonlinear_arith);
}

/// A componentwise bound caps the rounded-up length at twice the bound.
pub proof fn lemma_len_ceil_le(v: Vec3i, m: int)
    requires
        0 <= m,
        v3_bounded(v, m),
    ensures
        0 <= len_ceil_spec(v) <= 2 * m,
{
    let n2 = norm2_spec(v);
    let s = len_ceil_spec(v);
    assert(0 <= v.x * v.x + v.y * v.y + v.z * v.z <= 3 * (m * m)) by (nonlinear_arith)
        requires
            -m <= v.x <= m,
            -m <= v.y <= m,
            -m <= v.z <= m,
    ;
    if n2 == 0 {
        assert(s == 0);
    } else {
        crate::fixed::lemma_sqrt_floor_exists(n2 - 1);
        assert(0 <= s <= 2 * m) by (nonlinear_arith)
            requires
                0 < n2 <= 3 * (m * m),
                0 <= m,
                s - 1 == sqrt_floor(n2 - 1),
                is_sqrt_floor(n2 - 1, s - 1),
        ;
    }
}

/// A normalized vector has squared norm at most one (at raw-squared scale):
/// each component is truncated toward zero from the exact ratio, and the
/// rounded-up length over-estimates the true length.
pub proof fn lemma_normalize_norm2_le(v: Vec3i)
    requires
        len_ceil_spec(v) > 0,
    ensures
        norm2_spec(v3_normalize_spec(v)) <= 0x1_0000_0000,
{
    let s = len_ceil_spec(v);
    let n2 = norm2_spec(v);
    assert(n2 > 0);
    crate::fixed::lemma_sqrt_floor_exists(n2 - 1);
    assert(n2 <= s * s) by (nonlinear_arith)
        requires
            n2 > 0,
            s - 1 == sqrt_floor(n2 - 1),
            is_sqrt_floor(n2 - 1, s - 1),
    ;
    let r = v3_normalize_spec(v);
    crate::fixed::lemma_div_trunc_sq(v.x * 65536, s);
    crate::fixed::lemma_div_trunc_sq(v.y * 65536, s);
    crate::fixed::lemma_div_trunc_sq(v.z * 65536, s);
    assert(norm2_spec(r) * (s * s) <= 0x1_0000_0000 * (s * s)) by (nonlinear_arith)
        requires
            r.x * r.x * (s * s) <= (v.x * 65536) * (v.x * 65536),
            r.y * r.y * (s * s) <= (v.y * 65536) * (v.y * 65536),
            r.z * r.z * (s * s) <= (v.z * 65536) * (v.z * 65536),
            norm2_spec(r) == r.x * r.x + r.y * r.y + r.z * r.z,
            v.x * v.x + v.y * v.y + v.z * v.z <= s * s,
    ;
    assert(norm2_spec(r) <= 0x1_0000_0000) by (nonlinear_arith)
        requires
            norm2_spec(r) * (s * s) <= 0x1_0000_0000 * (s * s),
            s > 0,
    ;
}

/// Each component of a normalized vector lies within one unit.
pub proof fn lemma_normalize_bounded(v: Vec3i)
    requires
        len_ceil_spec(v) > 0,
    ensures
        v3_bounded(v3_normalize_spec(v), 65536),
{
    let r = v3_normalize_spec(v);
    lemma_normalize_norm2_le(v);
    assert(v3_bounded(r, 65536)) by (nonlinear_arith)
        requires
            r.x * r.x + r.y * r.y + r.z * r.z <= 0x1_0000_0000,
    ;
}

} // verus!
