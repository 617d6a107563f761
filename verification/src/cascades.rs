//! The light-frustum fitter: carves one cascade's slice out of the view
//! frustum, wraps it in a quantized bounding sphere, and builds the
//! orthographic light-space projection that encloses the sphere.
//!
//! Every stage is mirrored by a spec function, so the whole fit — including
//! each rejection of a degenerate input — is pinned down exactly.

use vstd::prelude::*;

use crate::fixed::div_trunc;
use crate::fixed::div_trunc_by;
use crate::fixed::fx_div_spec;
use crate::fixed::fx_mul_spec;
use crate::fixed::FX_ONE;
use crate::fixed::i128_div_trunc_by;
use crate::fixed::lemma_div_trunc_le;
use crate::fixed::lemma_mul_le_abs;
use crate::fixed::quantize_up;
use crate::fixed::quantize_up_spec;
use crate::matrix::FxMat4;
use crate::matrix::MAT_LIMIT;
use crate::matrix::Mat4i;
use crate::matrix::m4_bounded;
use crate::matrix::m4_xform;
use crate::matrix::m4_xform_spec;
use crate::vector::FxVec3;
use crate::vector::FxVec4;
use crate::vector::Vec3i;
use crate::vector::Vec4i;
use crate::vector::v3_add_spec;
use crate::vector::v3_bounded;
use crate::vector::v3_scale_spec;
use crate::vector::v3_sub_spec;

verus! {

/// Largest coordinate accepted for an unprojected frustum corner (2^30 raw):
/// corners beyond it mark the camera matrix as degenerate.
pub const CORNER_LIMIT: i64 = 0x4000_0000;

/// Largest component accepted for the light direction (two units): the
/// direction is expected to be unit length.
pub const LIGHT_LIMIT: i64 = 0x2_0000;

/// Largest magnitude accepted for a split fraction (two units): fractions
/// are expected within `[0, 1]`.
pub const SPLIT_LIMIT: i64 = 0x2_0000;

/// Why a cascade could not be fitted.
#[derive(Clone, Copy, PartialEq, Eq, Structural, Debug)]
pub enum CsmError {
    /// The clip range is empty or starts at or behind the eye
    /// (`near_clip <= 0` or `far_clip <= near_clip`).
    InvalidClipRange,
    /// The camera matrix cannot be inverted within range, a frustum corner
    /// unprojects outside the supported volume, or the frustum slice
    /// collapses to a point.
    DegenerateCamera,
    /// The light direction is (near) zero or (near) parallel to the world
    /// up axis, so no light basis exists.
    DegenerateLight,
}

/// Camera state consumed by the fitter: the combined projection-view matrix
/// and the clip planes it was built from.
#[derive(Clone, Copy, PartialEq, Eq, Structural, Debug)]
pub struct CameraParams {
    pub projection_view: FxMat4,
    pub near_clip: i64,
    pub far_clip: i64,
}

/// The eight corners of the canonical view volume in normalized device
/// coordinates: `x` and `y` at plus or minus one, `z` at minus one on the
/// near plane (first four) and plus one on the far plane (last four).
pub open spec fn ndc_corner_spec(i: int) -> Vec4i {
    let x: int = if i == 0 || i == 3 || i == 4 || i == 7 {
        -65536
    } else {
        65536
    };
    let y: int = if i == 2 || i == 3 || i == 6 || i == 7 {
        -65536
    } else {
        65536
    };
    let z: int = if i < 4 {
        -65536
    } else {
        65536
    };
    Vec4i { x: x, y: y, z: z, w: 65536 }
}

/// The world-space position of NDC corner `i` under the inverse
/// projection-view matrix: the homogeneous transform followed by the
/// perspective divide.
pub open spec fn unproject_val(inv: Mat4i, i: int) -> Vec3i {
    let h = m4_xform_spec(inv, ndc_corner_spec(i));
    Vec3i {
        x: fx_div_spec(h.x, h.w),
        y: fx_div_spec(h.y, h.w),
        z: fx_div_spec(h.z, h.w),
    }
}

/// Corner `i` unprojects cleanly: its homogeneous weight is nonzero and the
/// resulting position stays within the supported volume.
pub open spec fn unproject_ok(inv: Mat4i, i: int) -> bool {
    let h = m4_xform_spec(inv, ndc_corner_spec(i));
    h.w != 0 && v3_bounded(unproject_val(inv, i), CORNER_LIMIT as int)
}

/// Unprojects one NDC corner to world space.
fn unproject_corner(inv: &FxMat4, c: FxVec4, Ghost(i): Ghost<int>) -> (r: Option<FxVec3>)
    requires
        m4_bounded(inv@, MAT_LIMIT as int),
        0 <= i < 8,
        c@ == ndc_corner_spec(i),
    ensures
        match r {
            Some(v) => unproject_ok(inv@, i) && v@ == unproject_val(inv@, i),
            None => !unproject_ok(inv@, i),
        },
{
    let h = m4_xform(inv, c);
    if h.w == 0 {
        return None;
    }
    let x = i128_div_trunc_by((h.x as i128) * 65536, h.w as i128);
    let y = i128_div_trunc_by((h.y as i128) * 65536, h.w as i128);
    let z = i128_div_trunc_by((h.z as i128) * 65536, h.w as i128);
    if x < -CORNER_LIMIT as i128 || x > CORNER_LIMIT as i128 || y < -CORNER_LIMIT as i128 || y
        > CORNER_LIMIT as i128 || z < -CORNER_LIMIT as i128 || z > CORNER_LIMIT as i128 {
        return None;
    }
    Some(FxVec3 { x: x as i64, y: y as i64, z: z as i64 })
}

/// Largest coordinate of a slice corner (2^33 raw): an unprojected corner
/// moved by a bounded split fraction stays within this.
pub const SLICE_LIMIT: i64 = 0x2_0000_0000;

/// Largest bounding-sphere radius the fitter can produce (just over 2^35
/// raw: the largest corner distance plus one quantization step).
pub const RADIUS_LIMIT: i64 = 0x8_0000_1000;

/// The larger of two integers.
pub open spec fn max_i(a: int, b: int) -> int {
    if a >= b {
        a
    } else {
        b
    }
}

/// Corner `i` of the sub-frustum slice for the interval
/// `[last_split, split]`: each near-plane corner moves toward its far-plane
/// partner by `last_split`, each far-plane corner is pulled back to `split`.
pub open spec fn slice_corner_spec(inv: Mat4i, last_split: int, split: int, i: int) -> Vec3i
    recommends
        0 <= i < 8,
{
    if i < 4 {
        let u = unproject_val(inv, i);
        let v = unproject_val(inv, i + 4);
        v3_add_spec(u, v3_scale_spec(v3_sub_spec(v, u), last_split))
    } else {
        let u = unproject_val(inv, i - 4);
        let v = unproject_val(inv, i);
        v3_add_spec(u, v3_scale_spec(v3_sub_spec(v, u), split))
    }
}

/// The centroid of eight corners: the componentwise mean, rounded toward
/// zero.
pub open spec fn centroid_of(
    c0: Vec3i,
    c1: Vec3i,
    c2: Vec3i,
    c3: Vec3i,
    c4: Vec3i,
    c5: Vec3i,
    c6: Vec3i,
    c7: Vec3i,
) -> Vec3i {
    Vec3i {
        x: div_trunc(c0.x + c1.x + c2.x + c3.x + c4.x + c5.x + c6.x + c7.x, 8),
        y: div_trunc(c0.y + c1.y + c2.y + c3.y + c4.y + c5.y + c6.y + c7.y, 8),
        z: div_trunc(c0.z + c1.z + c2.z + c3.z + c4.z + c5.z + c6.z + c7.z, 8),
    }
}

/// The quantized bounding-sphere radius of eight corners around a center:
/// the largest rounded-up corner distance, snapped up to the sixteenth grid.
pub open spec fn radius_of(
    c0: Vec3i,
    c1: Vec3i,
    c2: Vec3i,
    c3: Vec3i,
    c4: Vec3i,
    c5: Vec3i,
    c6: Vec3i,
    c7: Vec3i,
    center: Vec3i,
) -> int {
    quantize_up_spec(
        max_i(
            max_i(
                max_i(
                    crate::vector::len_ceil_spec(v3_sub_spec(c0, center)),
                    crate::vector::len_ceil_spec(v3_sub_spec(c1, center)),
                ),
                max_i(
                    crate::vector::len_ceil_spec(v3_sub_spec(c2, center)),
                    crate::vector::len_ceil_spec(v3_sub_spec(c3, center)),
                ),
            ),
            max_i(
                max_i(
                    crate::vector::len_ceil_spec(v3_sub_spec(c4, center)),
                    crate::vector::len_ceil_spec(v3_sub_spec(c5, center)),
                ),
                max_i(
                    crate::vector::len_ceil_spec(v3_sub_spec(c6, center)),
                    crate::vector::len_ceil_spec(v3_sub_spec(c7, center)),
                ),
            ),
        ),
    )
}

/// The distance between two slice-bounded points stays well under the
/// radius limit.
proof fn lemma_slice_dist_bound(c: Vec3i, center: Vec3i)
    requires
        v3_bounded(c, SLICE_LIMIT as int),
        v3_bounded(center, SLICE_LIMIT as int),
    ensures
        0 <= crate::vector::len_ceil_spec(v3_sub_spec(c, center)) <= 0x8_0000_0000,
{
    crate::vector::lemma_len_ceil_le(v3_sub_spec(c, center), 0x4_0000_0000);
}

/// Moves corner `u` toward its partner `v` by the fixed-point fraction `t`.
fn corner_toward(u: FxVec3, v: FxVec3, t: i64) -> (r: FxVec3)
    requires
        v3_bounded(u@, CORNER_LIMIT as int),
        v3_bounded(v@, CORNER_LIMIT as int),
        -SPLIT_LIMIT <= t <= SPLIT_LIMIT,
    ensures
        r@ == v3_add_spec(u@, v3_scale_spec(v3_sub_spec(v@, u@), t as int)),
        v3_bounded(r@, SLICE_LIMIT as int),
{
    let d = crate::vector::v3_sub(v, u);
    proof {
        lemma_mul_le_abs(d@.x, t as int, 0x8000_0000, 0x2_0000);
        lemma_mul_le_abs(d@.y, t as int, 0x8000_0000, 0x2_0000);
        lemma_mul_le_abs(d@.z, t as int, 0x8000_0000, 0x2_0000);
        lemma_div_trunc_le(d@.x * t, 65536, 0x1_0000_0000);
        lemma_div_trunc_le(d@.y * t, 65536, 0x1_0000_0000);
        lemma_div_trunc_le(d@.z * t, 65536, 0x1_0000_0000);
    }
    let s = crate::vector::v3_scale(d, t);
    crate::vector::v3_add(u, s)
}

/// The componentwise mean of eight slice corners.
#[allow(clippy::too_many_arguments)]
fn centroid(
    c0: FxVec3,
    c1: FxVec3,
    c2: FxVec3,
    c3: FxVec3,
    c4: FxVec3,
    c5: FxVec3,
    c6: FxVec3,
    c7: FxVec3,
) -> (r: FxVec3)
    requires
        v3_bounded(c0@, SLICE_LIMIT as int),
        v3_bounded(c1@, SLICE_LIMIT as int),
        v3_bounded(c2@, SLICE_LIMIT as int),
        v3_bounded(c3@, SLICE_LIMIT as int),
        v3_bounded(c4@, SLICE_LIMIT as int),
        v3_bounded(c5@, SLICE_LIMIT as int),
        v3_bounded(c6@, SLICE_LIMIT as int),
        v3_bounded(c7@, SLICE_LIMIT as int),
    ensures
        r@ == centroid_of(c0@, c1@, c2@, c3@, c4@, c5@, c6@, c7@),
        v3_bounded(r@, SLICE_LIMIT as int),
{
    let sx: i64 = c0.x + c1.x + c2.x + c3.x + c4.x + c5.x + c6.x + c7.x;
    let sy: i64 = c0.y + c1.y + c2.y + c3.y + c4.y + c5.y + c6.y + c7.y;
    let sz: i64 = c0.z + c1.z + c2.z + c3.z + c4.z + c5.z + c6.z + c7.z;
    proof {
        lemma_div_trunc_le(sx as int, 8, SLICE_LIMIT as int);
        lemma_div_trunc_le(sy as int, 8, SLICE_LIMIT as int);
        lemma_div_trunc_le(sz as int, 8, SLICE_LIMIT as int);
    }
    let x = crate::fixed::i128_div_trunc(sx as i128, 8);
    let y = crate::fixed::i128_div_trunc(sy as i128, 8);
    let z = crate::fixed::i128_div_trunc(sz as i128, 8);
    FxVec3 { x: x as i64, y: y as i64, z: z as i64 }
}

/// The quantized bounding-sphere radius of eight corners around a center.
#[allow(clippy::too_many_arguments)]
fn sphere_radius(
    c0: FxVec3,
    c1: FxVec3,
    c2: FxVec3,
    c3: FxVec3,
    c4: FxVec3,
    c5: FxVec3,
    c6: FxVec3,
    c7: FxVec3,
    center: FxVec3,
) -> (r: i64)
    requires
        v3_bounded(c0@, SLICE_LIMIT as int),
        v3_bounded(c1@, SLICE_LIMIT as int),
        v3_bounded(c2@, SLICE_LIMIT as int),
        v3_bounded(c3@, SLICE_LIMIT as int),
        v3_bounded(c4@, SLICE_LIMIT as int),
        v3_bounded(c5@, SLICE_LIMIT as int),
        v3_bounded(c6@, SLICE_LIMIT as int),
        v3_bounded(c7@, SLICE_LIMIT as int),
        v3_bounded(center@, SLICE_LIMIT as int),
    ensures
        r == radius_of(c0@, c1@, c2@, c3@, c4@, c5@, c6@, c7@, center@),
        0 <= r <= RADIUS_LIMIT,
{
    proof {
        lemma_slice_dist_bound(c0@, center@);
        lemma_slice_dist_bound(c1@, center@);
        lemma_slice_dist_bound(c2@, center@);
        lemma_slice_dist_bound(c3@, center@);
        lemma_slice_dist_bound(c4@, center@);
        lemma_slice_dist_bound(c5@, center@);
        lemma_slice_dist_bound(c6@, center@);
        lemma_slice_dist_bound(c7@, center@);
    }
    let d0 = crate::vector::v3_len_ceil(crate::vector::v3_sub(c0, center));
    let d1 = crate::vector::v3_len_ceil(crate::vector::v3_sub(c1, center));
    let d2 = crate::vector::v3_len_ceil(crate::vector::v3_sub(c2, center));
    let d3 = crate::vector::v3_len_ceil(crate::vector::v3_sub(c3, center));
    let d4 = crate::vector::v3_len_ceil(crate::vector::v3_sub(c4, center));
    let d5 = crate::vector::v3_len_ceil(crate::vector::v3_sub(c5, center));
    let d6 = crate::vector::v3_len_ceil(crate::vector::v3_sub(c6, center));
    let d7 = crate::vector::v3_len_ceil(crate::vector::v3_sub(c7, center));
    let mut best = d0;
    if d1 > best {
        best = d1;
    }
    if d2 > best {
        best = d2;
    }
    if d3 > best {
        best = d3;
    }
    if d4 > best {
        best = d4;
    }
    if d5 > best {
        best = d5;
    }
    if d6 > best {
        best = d6;
    }
    if d7 > best {
        best = d7;
    }
    quantize_up(best)
}

/// Largest coordinate of the light eye point (the centroid pushed toward
/// the light by one radius).
pub const EYE_LIMIT: i64 = 0x14_0000_0000;

/// The world up axis.
pub open spec fn world_up_spec() -> Vec3i {
    Vec3i { x: 0, y: 65536, z: 0 }
}

/// The light view matrix looking from `eye` toward `target` under the world
/// up axis: rows carry the side, up and negated forward directions with
/// their translations, in the usual right-handed look-at arrangement. All
/// three basis rows are normalized. `None` when the forward direction
/// vanishes or is parallel to up, so that no basis exists.
pub open spec fn look_at_spec(eye: Vec3i, target: Vec3i) -> Option<Mat4i> {
    let fv = v3_sub_spec(target, eye);
    if crate::vector::len_ceil_spec(fv) == 0 {
        None
    } else {
        let f = crate::vector::v3_normalize_spec(fv);
        let sv = crate::vector::cross3_spec(f, world_up_spec());
        if crate::vector::len_ceil_spec(sv) == 0 {
            None
        } else {
            let s = crate::vector::v3_normalize_spec(sv);
            let uv = crate::vector::cross3_spec(s, f);
            if crate::vector::len_ceil_spec(uv) == 0 {
                None
            } else {
                let u = crate::vector::v3_normalize_spec(uv);
                Some(
                    Mat4i {
                        r0: Vec4i {
                            x: s.x,
                            y: s.y,
                            z: s.z,
                            w: -crate::vector::dot3_spec(s, eye),
                        },
                        r1: Vec4i {
                            x: u.x,
                            y: u.y,
                            z: u.z,
                            w: -crate::vector::dot3_spec(u, eye),
                        },
                        r2: Vec4i {
                            x: -f.x,
                            y: -f.y,
                            z: -f.z,
                            w: crate::vector::dot3_spec(f, eye),
                        },
                        r3: Vec4i { x: 0, y: 0, z: 0, w: 65536 },
                    },
                )
            }
        }
    }
}

/// The symmetric orthographic light projection for sphere radius `r`: maps
/// `x` and `y` in `[-r, r]` to `[-1, 1]` and view depth `z` in `[-2r, 0]`
/// to `[0, 1]`, the rendering API's depth range.
pub open spec fn ortho_light_spec(radius: int) -> Mat4i
    recommends
        radius > 0,
{
    let e = fx_div_spec(65536, radius);
    let d = fx_div_spec(65536, 2 * radius);
    Mat4i {
        r0: Vec4i { x: e, y: 0, z: 0, w: 0 },
        r1: Vec4i { x: 0, y: e, z: 0, w: 0 },
        r2: Vec4i { x: 0, y: 0, z: -d, w: 0 },
        r3: Vec4i { x: 0, y: 0, z: 0, w: 65536 },
    }
}

/// The view-space depth at which a cascade's coverage ends: the negated
/// absolute depth of the split fraction within the clip range.
pub open spec fn split_depth_spec(near: int, far: int, split: int) -> int {
    -(near + fx_mul_spec(split, far - near))
}

/// Builds the light view matrix for an eye and target point.
fn look_at(eye: FxVec3, target: FxVec3) -> (r: Option<FxMat4>)
    requires
        v3_bounded(eye@, EYE_LIMIT as int),
        v3_bounded(target@, SLICE_LIMIT as int),
    ensures
        match r {
            Some(m) => look_at_spec(eye@, target@) == Some(m@) && m4_bounded(
                m@,
                crate::vector::VEC_LIMIT as int,
            ),
            None => look_at_spec(eye@, target@) is None,
        },
{
    let fv = crate::vector::v3_sub(target, eye);
    let fl = crate::vector::v3_len_ceil(fv);
    if fl == 0 {
        return None;
    }
    let f = crate::vector::v3_normalize(fv);
    let up = FxVec3 { x: 0, y: FX_ONE, z: 0 };
    proof {
        crate::vector::lemma_cross_unit_bounded(f@, up@);
    }
    let sv = crate::vector::v3_cross(f, up);
    let sl = crate::vector::v3_len_ceil(sv);
    if sl == 0 {
        return None;
    }
    let s = crate::vector::v3_normalize(sv);
    proof {
        crate::vector::lemma_cross_unit_bounded(s@, f@);
    }
    let uv = crate::vector::v3_cross(s, f);
    let ul = crate::vector::v3_len_ceil(uv);
    if ul == 0 {
        return None;
    }
    let u = crate::vector::v3_normalize(uv);
    proof {
        crate::vector::lemma_dot3_le(s@, eye@, 65536, EYE_LIMIT as int, 0x3C_0000_0000);
        crate::vector::lemma_dot3_le(u@, eye@, 65536, EYE_LIMIT as int, 0x3C_0000_0000);
        crate::vector::lemma_dot3_le(f@, eye@, 65536, EYE_LIMIT as int, 0x3C_0000_0000);
    }
    let tx = crate::vector::v3_dot(s, eye);
    let ty = crate::vector::v3_dot(u, eye);
    let tz = crate::vector::v3_dot(f, eye);
    Some(
        FxMat4 {
            r0: FxVec4 { x: s.x, y: s.y, z: s.z, w: -tx },
            r1: FxVec4 { x: u.x, y: u.y, z: u.z, w: -ty },
            r2: FxVec4 { x: -f.x, y: -f.y, z: -f.z, w: tz },
            r3: FxVec4 { x: 0, y: 0, z: 0, w: FX_ONE },
        },
    )
}

/// Builds the orthographic light projection for a positive sphere radius.
fn ortho_light(radius: i64) -> (r: FxMat4)
    requires
        0 < radius <= RADIUS_LIMIT,
    ensures
        r@ == ortho_light_spec(radius as int),
        m4_bounded(r@, 0x1_0000_0000),
{
    proof {
        assert(0x1_0000_0000int * 1 <= 0x1_0000_0000int * (radius as int)) by (nonlinear_arith)
            requires
                radius >= 1,
        ;
        lemma_div_trunc_le(0x1_0000_0000int, radius as int, 0x1_0000_0000);
        assert(0x1_0000_0000int * 1 <= 0x1_0000_0000int * (2 * radius as int)) by (nonlinear_arith)
            requires
                radius >= 1,
        ;
        lemma_div_trunc_le(0x1_0000_0000int, 2 * (radius as int), 0x1_0000_0000);
    }
    let e = crate::fixed::fx_div(FX_ONE, radius);
    let d2 = 2 * radius;
    let dz = crate::fixed::fx_div(FX_ONE, d2);
    FxMat4 {
        r0: FxVec4 { x: e, y: 0, z: 0, w: 0 },
        r1: FxVec4 { x: 0, y: e, z: 0, w: 0 },
        r2: FxVec4 { x: 0, y: 0, z: -dz, w: 0 },
        r3: FxVec4 { x: 0, y: 0, z: 0, w: FX_ONE },
    }
}

/// The view-space depth at which a cascade's coverage ends.
fn split_depth(near_clip: i64, far_clip: i64, split: i64) -> (d: i64)
    requires
        0 < near_clip < far_clip <= crate::splits::MAX_CLIP,
        -SPLIT_LIMIT <= split <= SPLIT_LIMIT,
    ensures
        d == split_depth_spec(near_clip as int, far_clip as int, split as int),
{
    proof {
        lemma_mul_le_abs(split as int, (far_clip - near_clip) as int, 0x2_0000, 0x4000_0000);
        lemma_div_trunc_le(split * (far_clip - near_clip), 65536, 0x8_0000_0000);
    }
    let m = crate::fixed::fx_mul(split, far_clip - near_clip);
    -(near_clip + m)
}

/// The complete fit of one cascade against an already inverted camera
/// matrix: slice the frustum, wrap it in the quantized bounding sphere, and
/// build the light projection, rejecting degenerate cameras and lights.
pub open spec fn cascade_fit_spec(
    inv: Mat4i,
    near: int,
    far: int,
    last_split: int,
    split: int,
    light: Vec3i,
) -> Result<(Mat4i, int), CsmError> {
    if exists|i: int| 0 <= i < 8 && !unproject_ok(inv, i) {
        Err(CsmError::DegenerateCamera)
    } else {
        let s0 = slice_corner_spec(inv, last_split, split, 0);
        let s1 = slice_corner_spec(inv, last_split, split, 1);
        let s2 = slice_corner_spec(inv, last_split, split, 2);
        let s3 = slice_corner_spec(inv, last_split, split, 3);
        let s4 = slice_corner_spec(inv, last_split, split, 4);
        let s5 = slice_corner_spec(inv, last_split, split, 5);
        let s6 = slice_corner_spec(inv, last_split, split, 6);
        let s7 = slice_corner_spec(inv, last_split, split, 7);
        let center = centroid_of(s0, s1, s2, s3, s4, s5, s6, s7);
        let radius = radius_of(s0, s1, s2, s3, s4, s5, s6, s7, center);
        if radius == 0 {
            Err(CsmError::DegenerateCamera)
        } else {
            let eye = v3_add_spec(center, v3_scale_spec(light, radius));
            match look_at_spec(eye, center) {
                Option::None => Err(CsmError::DegenerateLight),
                Option::Some(view) => Ok(
                    (
                        crate::matrix::m4_mul_spec(ortho_light_spec(radius), view),
                        split_depth_spec(near, far, split),
                    ),
                ),
            }
        }
    }
}

/// Fits one cascade from the inverted camera matrix.
#[verifier::rlimit(100)]
fn cascade_fit(
    inv: &FxMat4,
    near_clip: i64,
    far_clip: i64,
    last_split: i64,
    split: i64,
    origin_to_light: FxVec3,
) -> (r: Result<(FxMat4, i64), CsmError>)
    requires
        m4_bounded(inv@, MAT_LIMIT as int),
        0 < near_clip < far_clip <= crate::splits::MAX_CLIP,
        -SPLIT_LIMIT <= last_split <= SPLIT_LIMIT,
        -SPLIT_LIMIT <= split <= SPLIT_LIMIT,
        v3_bounded(origin_to_light@, LIGHT_LIMIT as int),
    ensures
        match r {
            Ok(p) => cascade_fit_spec(
                inv@,
                near_clip as int,
                far_clip as int,
                last_split as int,
                split as int,
                origin_to_light@,
            ) == Ok::<(Mat4i, int), CsmError>((p.0@, p.1 as int)),
            Err(e) => cascade_fit_spec(
                inv@,
                near_clip as int,
                far_clip as int,
                last_split as int,
                split as int,
                origin_to_light@,
            ) == Err::<(Mat4i, int), CsmError>(e),
        },
{
    let n0 = FxVec4 { x: -FX_ONE, y: FX_ONE, z: -FX_ONE, w: FX_ONE };
    let n1 = FxVec4 { x: FX_ONE, y: FX_ONE, z: -FX_ONE, w: FX_ONE };
    let n2 = FxVec4 { x: FX_ONE, y: -FX_ONE, z: -FX_ONE, w: FX_ONE };
    let n3 = FxVec4 { x: -FX_ONE, y: -FX_ONE, z: -FX_ONE, w: FX_ONE };
    let n4 = FxVec4 { x: -FX_ONE, y: FX_ONE, z: FX_ONE, w: FX_ONE };
    let n5 = FxVec4 { x: FX_ONE, y: FX_ONE, z: FX_ONE, w: FX_ONE };
    let n6 = FxVec4 { x: FX_ONE, y: -FX_ONE, z: FX_ONE, w: FX_ONE };
    let n7 = FxVec4 { x: -FX_ONE, y: -FX_ONE, z: FX_ONE, w: FX_ONE };
    let u0 = match unproject_corner(inv, n0, Ghost(0)) {
        Some(v) => v,
        None => {
            return Err(CsmError::DegenerateCamera);
        },
    };
    let u1 = match unproject_corner(inv, n1, Ghost(1)) {
        Some(v) => v,
        None => {
            return Err(CsmError::DegenerateCamera);
        },
    };
    let u2 = match unproject_corner(inv, n2, Ghost(2)) {
        Some(v) => v,
        None => {
            return Err(CsmError::DegenerateCamera);
        },
    };
    let u3 = match unproject_corner(inv, n3, Ghost(3)) {
        Some(v) => v,
        None => {
            return Err(CsmError::DegenerateCamera);
        },
    };
    let u4 = match unproject_corner(inv, n4, Ghost(4)) {
        Some(v) => v,
        None => {
            return Err(CsmError::DegenerateCamera);
        },
    };
    let u5 = match unproject_corner(inv, n5, Ghost(5)) {
        Some(v) => v,
        None => {
            return Err(CsmError::DegenerateCamera);
        },
    };
    let u6 = match unproject_corner(inv, n6, Ghost(6)) {
        Some(v) => v,
        None => {
            return Err(CsmError::DegenerateCamera);
        },
    };
    let u7 = match unproject_corner(inv, n7, Ghost(7)) {
        Some(v) => v,
        None => {
            return Err(CsmError::DegenerateCamera);
        },
    };
    proof {
        assert forall|i: int| 0 <= i < 8 implies unproject_ok(inv@, i) by {
            if i == 0 {
                assert(unproject_ok(inv@, 0));
            } else if i == 1 {
                assert(unproject_ok(inv@, 1));
            } else if i == 2 {
                assert(unproject_ok(inv@, 2));
            } else if i == 3 {
                assert(unproject_ok(inv@, 3));
            } else if i == 4 {
                assert(unproject_ok(inv@, 4));
            } else if i == 5 {
                assert(unproject_ok(inv@, 5));
            } else if i == 6 {
                assert(unproject_ok(inv@, 6));
            } else {
                assert(unproject_ok(inv@, 7));
            }
        }
    }
    let s0 = corner_toward(u0, u4, last_split);
    let s1 = corner_toward(u1, u5, last_split);
    let s2 = corner_toward(u2, u6, last_split);
    let s3 = corner_toward(u3, u7, last_split);
    let s4 = corner_toward(u0, u4, split);
    let s5 = corner_toward(u1, u5, split);
    let s6 = corner_toward(u2, u6, split);
    let s7 = corner_toward(u3, u7, split);
    let center = centroid(s0, s1, s2, s3, s4, s5, s6, s7);
    let radius = sphere_radius(s0, s1, s2, s3, s4, s5, s6, s7, center);
    if radius == 0 {
        return Err(CsmError::DegenerateCamera);
    }
    proof {
        lemma_mul_le_abs(origin_to_light@.x, radius as int, 0x2_0000, 0x8_0000_1000);
        lemma_mul_le_abs(origin_to_light@.y, radius as int, 0x2_0000, 0x8_0000_1000);
        lemma_mul_le_abs(origin_to_light@.z, radius as int, 0x2_0000, 0x8_0000_1000);
        lemma_div_trunc_le(origin_to_light@.x * radius, 65536, 0x10_0000_2000);
        lemma_div_trunc_le(origin_to_light@.y * radius, 65536, 0x10_0000_2000);
        lemma_div_trunc_le(origin_to_light@.z * radius, 65536, 0x10_0000_2000);
    }
    let offset = crate::vector::v3_scale(origin_to_light, radius);
    let eye = crate::vector::v3_add(center, offset);
    let view = match look_at(eye, center) {
        Some(v) => v,
        None => {
            return Err(CsmError::DegenerateLight);
        },
    };
    let ortho = ortho_light(radius);
    let matrix = crate::matrix::m4_mul(&ortho, &view);
    let depth = split_depth(near_clip, far_clip, split);
    Ok((matrix, depth))
}

/// Containment of the slice in the fitted sphere: every one of the eight
/// corners lies within the quantized bounding-sphere radius of the center —
/// the squared corner-to-center distance never exceeds the squared radius.
pub proof fn lemma_sphere_contains_corners(
    c0: Vec3i,
    c1: Vec3i,
    c2: Vec3i,
    c3: Vec3i,
    c4: Vec3i,
    c5: Vec3i,
    c6: Vec3i,
    c7: Vec3i,
    center: Vec3i,
)
    ensures
        ({
            let r = radius_of(c0, c1, c2, c3, c4, c5, c6, c7, center);
            &&& crate::vector::norm2_spec(v3_sub_spec(c0, center)) <= r * r
            &&& crate::vector::norm2_spec(v3_sub_spec(c1, center)) <= r * r
            &&& crate::vector::norm2_spec(v3_sub_spec(c2, center)) <= r * r
            &&& crate::vector::norm2_spec(v3_sub_spec(c3, center)) <= r * r
            &&& crate::vector::norm2_spec(v3_sub_spec(c4, center)) <= r * r
            &&& crate::vector::norm2_spec(v3_sub_spec(c5, center)) <= r * r
            &&& crate::vector::norm2_spec(v3_sub_spec(c6, center)) <= r * r
            &&& crate::vector::norm2_spec(v3_sub_spec(c7, center)) <= r * r
        }),
{
    let m = max_i(
        max_i(
            max_i(
                crate::vector::len_ceil_spec(v3_sub_spec(c0, center)),
                crate::vector::len_ceil_spec(v3_sub_spec(c1, center)),
            ),
            max_i(
                crate::vector::len_ceil_spec(v3_sub_spec(c2, center)),
                crate::vector::len_ceil_spec(v3_sub_spec(c3, center)),
            ),
        ),
        max_i(
            max_i(
                crate::vector::len_ceil_spec(v3_sub_spec(c4, center)),
                crate::vector::len_ceil_spec(v3_sub_spec(c5, center)),
            ),
            max_i(
                crate::vector::len_ceil_spec(v3_sub_spec(c6, center)),
                crate::vector::len_ceil_spec(v3_sub_spec(c7, center)),
            ),
        ),
    );
    lemma_corner_in_sphere(c0, center, m);
    lemma_corner_in_sphere(c1, center, m);
    lemma_corner_in_sphere(c2, center, m);
    lemma_corner_in_sphere(c3, center, m);
    lemma_corner_in_sphere(c4, center, m);
    lemma_corner_in_sphere(c5, center, m);
    lemma_corner_in_sphere(c6, center, m);
    lemma_corner_in_sphere(c7, center, m);
}

/// Containment of a cascade's slice in its own fitted sphere: for any
/// camera inverse and split interval, every corner of the frustum slice
/// lies within the quantized bounding-sphere radius of the slice centroid.
pub proof fn lemma_cascade_slice_in_sphere(inv: Mat4i, last_split: int, split: int)
    ensures
        ({
            let center = centroid_of(
                slice_corner_spec(inv, last_split, split, 0),
                slice_corner_spec(inv, last_split, split, 1),
                slice_corner_spec(inv, last_split, split, 2),
                slice_corner_spec(inv, last_split, split, 3),
                slice_corner_spec(inv, last_split, split, 4),
                slice_corner_spec(inv, last_split, split, 5),
                slice_corner_spec(inv, last_split, split, 6),
                slice_corner_spec(inv, last_split, split, 7),
            );
            let radius = radius_of(
                slice_corner_spec(inv, last_split, split, 0),
                slice_corner_spec(inv, last_split, split, 1),
                slice_corner_spec(inv, last_split, split, 2),
                slice_corner_spec(inv, last_split, split, 3),
                slice_corner_spec(inv, last_split, split, 4),
                slice_corner_spec(inv, last_split, split, 5),
                slice_corner_spec(inv, last_split, split, 6),
                slice_corner_spec(inv, last_split, split, 7),
                center,
            );
            forall|i: int|
                0 <= i < 8 ==> crate::vector::norm2_spec(
                    v3_sub_spec(#[trigger] slice_corner_spec(inv, last_split, split, i), center),
                ) <= radius * radius
        }),
{
    let s0 = slice_corner_spec(inv, last_split, split, 0);
    let s1 = slice_corner_spec(inv, last_split, split, 1);
    let s2 = slice_corner_spec(inv, last_split, split, 2);
    let s3 = slice_corner_spec(inv, last_split, split, 3);
    let s4 = slice_corner_spec(inv, last_split, split, 4);
    let s5 = slice_corner_spec(inv, last_split, split, 5);
    let s6 = slice_corner_spec(inv, last_split, split, 6);
    let s7 = slice_corner_spec(inv, last_split, split, 7);
    let center = centroid_of(s0, s1, s2, s3, s4, s5, s6, s7);
    let radius = radius_of(s0, s1, s2, s3, s4, s5, s6, s7, center);
    lemma_sphere_contains_corners(s0, s1, s2, s3, s4, s5, s6, s7, center);
    assert forall|i: int| 0 <= i < 8 implies crate::vector::norm2_spec(
        v3_sub_spec(#[trigger] slice_corner_spec(inv, last_split, split, i), center),
    ) <= radius * radius by {
        if i == 0 {
        } else if i == 1 {
        } else if i == 2 {
        } else if i == 3 {
        } else if i == 4 {
        } else if i == 5 {
        } else if i == 6 {
        } else {
            assert(slice_corner_spec(inv, last_split, split, i) == s7);
        }
    }
}

/// One corner's distance bound: the quantized largest distance dominates
/// this corner's rounded-up distance, hence its squared distance.
proof fn lemma_corner_in_sphere(c: Vec3i, center: Vec3i, m: int)
    requires
        crate::vector::len_ceil_spec(v3_sub_spec(c, center)) <= m,
    ensures
        crate::vector::norm2_spec(v3_sub_spec(c, center)) <= quantize_up_spec(m) * quantize_up_spec(
            m,
        ),
{
    let d = crate::vector::len_ceil_spec(v3_sub_spec(c, center));
    crate::vector::lemma_len_ceil_sq(v3_sub_spec(c, center));
    crate::fixed::lemma_quantize_up_ge(m);
    let r = quantize_up_spec(m);
    assert(crate::vector::norm2_spec(v3_sub_spec(c, center)) <= r * r) by (nonlinear_arith)
        requires
            crate::vector::norm2_spec(v3_sub_spec(c, center)) <= d * d,
            0 <= d <= r,
    ;
}

/// Containment of the sphere in the light-view box: a view basis row of at
/// most unit length moves any point of the fitted sphere at most the
/// radius away from the centroid's own image, plus one grid step of
/// truncation. Together with the corner-in-sphere and box-in-projection
/// facts this pins the slice inside the light volume up to the centering
/// of the rounded basis.
pub proof fn lemma_view_row_bounds_sphere(row: Vec3i, p: Vec3i, c: Vec3i, r: int)
    requires
        crate::vector::norm2_spec(row) <= 0x1_0000_0000,
        0 <= r,
        crate::vector::norm2_spec(v3_sub_spec(p, c)) <= r * r,
    ensures
        crate::vector::dot3_spec(row, c) - r - 1 <= crate::vector::dot3_spec(row, p)
            <= crate::vector::dot3_spec(row, c) + r + 1,
{
    let d = v3_sub_spec(p, c);
    let a = row.x * p.x + row.y * p.y + row.z * p.z;
    let b = row.x * c.x + row.y * c.y + row.z * c.z;
    assert(a - b == row.x * d.x + row.y * d.y + row.z * d.z) by (nonlinear_arith)
        requires
            d.x == p.x - c.x,
            d.y == p.y - c.y,
            d.z == p.z - c.z,
            a == row.x * p.x + row.y * p.y + row.z * p.z,
            b == row.x * c.x + row.y * c.y + row.z * c.z,
    ;
    crate::vector::lemma_cauchy_schwarz(row, d);
    assert(d.x * d.x + d.y * d.y + d.z * d.z >= 0) by (nonlinear_arith);
    assert((a - b) * (a - b) <= (65536 * r) * (65536 * r)) by (nonlinear_arith)
        requires
            (a - b) * (a - b) <= crate::vector::norm2_spec(row) * crate::vector::norm2_spec(d),
            crate::vector::norm2_spec(row) <= 0x1_0000_0000,
            crate::vector::norm2_spec(d) <= r * r,
            0 <= r,
            0 <= crate::vector::norm2_spec(d),
    ;
    assert(b - r * 65536 <= a <= b + r * 65536) by (nonlinear_arith)
        requires
            (a - b) * (a - b) <= (65536 * r) * (65536 * r),
            0 <= r,
    ;
    crate::fixed::lemma_div_trunc_diff(a, b, 65536, r);
}

/// Containment of the sphere's box in the light projection: a point whose
/// light-view coordinates lie within the fitted extents (`x` and `y` within
/// the radius, depth within `[-2r, 0]`) lands inside normalized device
/// bounds under the orthographic light projection — `x` and `y` within one
/// unit either way, `z` within `[0, 1]`, `w` exactly one.
pub proof fn lemma_ortho_contains_box(radius: int, p: Vec4i)
    requires
        radius > 0,
        p.w == 65536,
        -radius <= p.x <= radius,
        -radius <= p.y <= radius,
        -2 * radius <= p.z <= 0,
    ensures
        ({
            let h = m4_xform_spec(ortho_light_spec(radius), p);
            &&& -65536 <= h.x <= 65536
            &&& -65536 <= h.y <= 65536
            &&& 0 <= h.z <= 65536
            &&& h.w == 65536
        }),
{
    let one2: int = 65536int * 65536;
    let e = fx_div_spec(65536, radius);
    let d = fx_div_spec(65536, 2 * radius);
    vstd::arithmetic::div_mod::lemma_fundamental_div_mod(one2, radius);
    vstd::arithmetic::div_mod::lemma_div_pos_is_pos(one2, radius);
    vstd::arithmetic::div_mod::lemma_mod_bound(one2, radius);
    assert(0 <= e && radius * e <= one2);
    vstd::arithmetic::div_mod::lemma_fundamental_div_mod(one2, 2 * radius);
    vstd::arithmetic::div_mod::lemma_div_pos_is_pos(one2, 2 * radius);
    vstd::arithmetic::div_mod::lemma_mod_bound(one2, 2 * radius);
    assert(0 <= d && (2 * radius) * d <= one2);
    assert(-one2 <= e * p.x <= one2 && -one2 <= e * p.y <= one2) by (nonlinear_arith)
        requires
            0 <= e,
            0 < radius,
            radius * e <= one2,
            -radius <= p.x <= radius,
            -radius <= p.y <= radius,
    ;
    assert(0 <= (-d) * p.z <= one2) by (nonlinear_arith)
        requires
            0 <= d,
            0 < radius,
            (2 * radius) * d <= one2,
            -2 * radius <= p.z <= 0,
    ;
    let h = m4_xform_spec(ortho_light_spec(radius), p);
    assert(h.x == div_trunc(e * p.x + 0 * p.y + 0 * p.z + 0 * 65536, 65536));
    lemma_div_trunc_le(e * p.x + 0 * p.y + 0 * p.z + 0 * 65536, 65536, 65536);
    assert(h.y == div_trunc(0 * p.x + e * p.y + 0 * p.z + 0 * 65536, 65536));
    lemma_div_trunc_le(0 * p.x + e * p.y + 0 * p.z + 0 * 65536, 65536, 65536);
    assert(h.z == div_trunc(0 * p.x + 0 * p.y + (-d) * p.z + 0 * 65536, 65536));
    lemma_div_trunc_le(0 * p.x + 0 * p.y + (-d) * p.z + 0 * 65536, 65536, 65536);
    assert(h.z >= 0) by {
        vstd::arithmetic::div_mod::lemma_div_pos_is_pos((-d) * p.z, 65536);
    }
    assert(h.w == div_trunc(0 * p.x + 0 * p.y + 0 * p.z + 65536 * 65536, 65536));
    crate::fixed::lemma_div_trunc_mul_exact(65536, 65536);
}

/// The packed per-update output: three cascade light-projection matrices
/// and the two view-space split depths the main pass selects cascades with
/// (beyond the second depth the last cascade is sampled anyway).
#[derive(Clone, Copy, PartialEq, Debug)]
pub struct CascadeUniform {
    pub matrices: [FxMat4; 3],
    pub split_depths: [i64; 2],
}

/// The mathematical model of a packed update.
pub ghost struct CascadeUniformV {
    pub m0: Mat4i,
    pub m1: Mat4i,
    pub m2: Mat4i,
    pub d0: int,
    pub d1: int,
}

impl View for CascadeUniform {
    type V = CascadeUniformV;

    open spec fn view(&self) -> CascadeUniformV {
        CascadeUniformV {
            m0: self.matrices[0]@,
            m1: self.matrices[1]@,
            m2: self.matrices[2]@,
            d0: self.split_depths[0] as int,
            d1: self.split_depths[1] as int,
        }
    }
}

/// The fit of one cascade from full camera state: the clip range is
/// validated, the camera matrix inverted, and the cascade fitted.
pub open spec fn fit_cascade_spec(
    pv: Mat4i,
    near: int,
    far: int,
    last_split: int,
    split: int,
    light: Vec3i,
) -> Result<(Mat4i, int), CsmError> {
    if !(0 < near < far) {
        Err(CsmError::InvalidClipRange)
    } else if crate::matrix::m4_det_spec(pv) == 0 || !m4_bounded(
        crate::matrix::m4_inverse_spec(pv),
        MAT_LIMIT as int,
    ) {
        Err(CsmError::DegenerateCamera)
    } else {
        cascade_fit_spec(crate::matrix::m4_inverse_spec(pv), near, far, last_split, split, light)
    }
}

/// One full update: three cascades over four split fractions, sharing one
/// camera inverse; the first failure wins (all failures of one kind report
/// the same error, so the order does not matter).
pub open spec fn update_cascades_spec(
    pv: Mat4i,
    near: int,
    far: int,
    s0: int,
    s1: int,
    s2: int,
    s3: int,
    light: Vec3i,
) -> Result<CascadeUniformV, CsmError> {
    if !(0 < near < far) {
        Err(CsmError::InvalidClipRange)
    } else if crate::matrix::m4_det_spec(pv) == 0 || !m4_bounded(
        crate::matrix::m4_inverse_spec(pv),
        MAT_LIMIT as int,
    ) {
        Err(CsmError::DegenerateCamera)
    } else {
        let inv = crate::matrix::m4_inverse_spec(pv);
        match cascade_fit_spec(inv, near, far, s0, s1, light) {
            Result::Err(e) => Err(e),
            Result::Ok(c0) => match cascade_fit_spec(inv, near, far, s1, s2, light) {
                Result::Err(e) => Err(e),
                Result::Ok(c1) => match cascade_fit_spec(inv, near, far, s2, s3, light) {
                    Result::Err(e) => Err(e),
                    Result::Ok(c2) => Ok(
                        CascadeUniformV { m0: c0.0, m1: c1.0, m2: c2.0, d0: c0.1, d1: c1.1 },
                    ),
                },
            },
        }
    }
}

/// Fits a single cascade: `last_split` and `split` are the fixed-point
/// fractions of the clip range where the cascade begins and ends, and
/// `origin_to_light` faces from the scene toward the sun. Returns the
/// light-projection matrix and the cascade's (negative) view-space far
/// split depth.
pub fn fit_cascade(camera: &CameraParams, last_split: i64, split: i64, origin_to_light: FxVec3) -> (
    r: Result<(FxMat4, i64), CsmError>)
    requires
        m4_bounded(camera.projection_view@, MAT_LIMIT as int),
        -crate::splits::MAX_CLIP <= camera.near_clip <= crate::splits::MAX_CLIP,
        -crate::splits::MAX_CLIP <= camera.far_clip <= crate::splits::MAX_CLIP,
        -SPLIT_LIMIT <= last_split <= SPLIT_LIMIT,
        -SPLIT_LIMIT <= split <= SPLIT_LIMIT,
        v3_bounded(origin_to_light@, LIGHT_LIMIT as int),
    ensures
        match r {
            Ok(p) => fit_cascade_spec(
                camera.projection_view@,
                camera.near_clip as int,
                camera.far_clip as int,
                last_split as int,
                split as int,
                origin_to_light@,
            ) == Ok::<(Mat4i, int), CsmError>((p.0@, p.1 as int)),
            Err(e) => fit_cascade_spec(
                camera.projection_view@,
                camera.near_clip as int,
                camera.far_clip as int,
                last_split as int,
                split as int,
                origin_to_light@,
            ) == Err::<(Mat4i, int), CsmError>(e),
        },
{
    if camera.near_clip <= 0 || camera.far_clip <= camera.near_clip {
        return Err(CsmError::InvalidClipRange);
    }
    let inv = match crate::matrix::m4_inverse(&camera.projection_view) {
        Some(m) => m,
        None => {
            return Err(CsmError::DegenerateCamera);
        },
    };
    cascade_fit(&inv, camera.near_clip, camera.far_clip, last_split, split, origin_to_light)
}

/// Recomputes all three cascades for a camera, split fractions and light
/// direction: the matrices and split depths that the shadow and main render
/// passes consume.
#[verifier::rlimit(100)]
#[verifier::spinoff_prover]
pub fn update_cascades(
    camera: &CameraParams,
    cascade_splits: [i64; 4],
    origin_to_light: FxVec3,
) -> (r: Result<CascadeUniform, CsmError>)
    requires
        m4_bounded(camera.projection_view@, MAT_LIMIT as int),
        -crate::splits::MAX_CLIP <= camera.near_clip <= crate::splits::MAX_CLIP,
        -crate::splits::MAX_CLIP <= camera.far_clip <= crate::splits::MAX_CLIP,
        -SPLIT_LIMIT <= cascade_splits[0] <= SPLIT_LIMIT,
        -SPLIT_LIMIT <= cascade_splits[1] <= SPLIT_LIMIT,
        -SPLIT_LIMIT <= cascade_splits[2] <= SPLIT_LIMIT,
        -SPLIT_LIMIT <= cascade_splits[3] <= SPLIT_LIMIT,
        v3_bounded(origin_to_light@, LIGHT_LIMIT as int),
    ensures
        match r {
            Ok(u) => update_cascades_spec(
                camera.projection_view@,
                camera.near_clip as int,
                camera.far_clip as int,
                cascade_splits[0] as int,
                cascade_splits[1] as int,
                cascade_splits[2] as int,
                cascade_splits[3] as int,
                origin_to_light@,
            ) == Ok::<CascadeUniformV, CsmError>(u@),
            Err(e) => update_cascades_spec(
                camera.projection_view@,
                camera.near_clip as int,
                camera.far_clip as int,
                cascade_splits[0] as int,
                cascade_splits[1] as int,
                cascade_splits[2] as int,
                cascade_splits[3] as int,
                origin_to_light@,
            ) == Err::<CascadeUniformV, CsmError>(e),
        },
{
    if camera.near_clip <= 0 || camera.far_clip <= camera.near_clip {
        return Err(CsmError::InvalidClipRange);
    }
    let inv = match crate::matrix::m4_inverse(&camera.projection_view) {
        Some(m) => m,
        None => {
            return Err(CsmError::DegenerateCamera);
        },
    };
    let c0 = match cascade_fit(
        &inv,
        camera.near_clip,
        camera.far_clip,
        cascade_splits[0],
        cascade_splits[1],
        origin_to_light,
    ) {
        Ok(p) => p,
        Err(e) => {
            return Err(e);
        },
    };
    let c1 = match cascade_fit(
        &inv,
        camera.near_clip,
        camera.far_clip,
        cascade_splits[1],
        cascade_splits[2],
        origin_to_light,
    ) {
        Ok(p) => p,
        Err(e) => {
            return Err(e);
        },
    };
    let c2 = match cascade_fit(
        &inv,
        camera.near_clip,
        camera.far_clip,
        cascade_splits[2],
        cascade_splits[3],
        origin_to_light,
    ) {
        Ok(p) => p,
        Err(e) => {
            return Err(e);
        },
    };
    Ok(
        CascadeUniform {
            matrices: [c0.0, c1.0, c2.0],
            // Only the first two split depths matter: a fragment beyond the
            // second boundary samples the last cascade anyway.
            split_depths: [c0.1, c1.1],
        },
    )
}

} // verus!
