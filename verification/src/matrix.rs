//! 4x4 fixed-point matrices: products, homogeneous transforms, and the exact
//! cofactor inverse used to unproject frustum corners.
//!
//! A matrix holds four rows of fixed-point entries. The inverse is computed
//! from exact integer sub-determinants; the only rounding is the final
//! truncating division of each adjugate entry by the determinant.

use vstd::prelude::*;

use crate::fixed::div_trunc_by;
use crate::fixed::i128_div_trunc_by;
use crate::fixed::i128_mul;
use crate::vector::FxVec4;
use crate::vector::Vec4i;
use crate::vector::VEC_LIMIT;
use crate::vector::dot4_spec;
use crate::vector::v4_bounded;
use crate::vector::v4_dot;

verus! {

/// Largest entry magnitude accepted for camera matrices and demanded of
/// their inverses (2^30 raw, or about sixteen thousand units).
pub const MAT_LIMIT: i64 = 0x4000_0000;

/// The mathematical model of a 4x4 matrix, as four rows.
pub ghost struct Mat4i {
    pub r0: Vec4i,
    pub r1: Vec4i,
    pub r2: Vec4i,
    pub r3: Vec4i,
}

/// A 4x4 matrix of fixed-point entries, as four rows.
#[derive(Clone, Copy, PartialEq, Eq, Structural, Debug)]
pub struct FxMat4 {
    pub r0: FxVec4,
    pub r1: FxVec4,
    pub r2: FxVec4,
    pub r3: FxVec4,
}

impl View for FxMat4 {
    type V = Mat4i;

    open spec fn view(&self) -> Mat4i {
        Mat4i { r0: self.r0@, r1: self.r1@, r2: self.r2@, r3: self.r3@ }
    }
}

/// All sixteen entries lie within `m`.
pub open spec fn m4_bounded(a: Mat4i, m: int) -> bool {
    v4_bounded(a.r0, m) && v4_bounded(a.r1, m) && v4_bounded(a.r2, m) && v4_bounded(a.r3, m)
}

/// The determinant of a 2x2 block given row by row.
pub open spec fn det2(a: int, b: int, c: int, d: int) -> int {
    a * d - b * c
}

/// The six 2x2 sub-determinants of the upper two rows, in the order used by
/// the cofactor expansion.
pub open spec fn m4_upper_minors(m: Mat4i) -> Seq<int> {
    seq![
        det2(m.r0.x, m.r0.y, m.r1.x, m.r1.y),
        det2(m.r0.x, m.r0.z, m.r1.x, m.r1.z),
        det2(m.r0.x, m.r0.w, m.r1.x, m.r1.w),
        det2(m.r0.y, m.r0.z, m.r1.y, m.r1.z),
        det2(m.r0.y, m.r0.w, m.r1.y, m.r1.w),
        det2(m.r0.z, m.r0.w, m.r1.z, m.r1.w),
    ]
}

/// The six 2x2 sub-determinants of the lower two rows, in the order used by
/// the cofactor expansion.
pub open spec fn m4_lower_minors(m: Mat4i) -> Seq<int> {
    seq![
        det2(m.r2.x, m.r2.y, m.r3.x, m.r3.y),
        det2(m.r2.x, m.r2.z, m.r3.x, m.r3.z),
        det2(m.r2.x, m.r2.w, m.r3.x, m.r3.w),
        det2(m.r2.y, m.r2.z, m.r3.y, m.r3.z),
        det2(m.r2.y, m.r2.w, m.r3.y, m.r3.w),
        det2(m.r2.z, m.r2.w, m.r3.z, m.r3.w),
    ]
}

/// The determinant of a 4x4 matrix, expanded over the 2x2 sub-determinants.
pub open spec fn m4_det_spec(m: Mat4i) -> int {
    let s = m4_upper_minors(m);
    let c = m4_lower_minors(m);
    s[0] * c[5] - s[1] * c[4] + s[2] * c[3] + s[3] * c[2] - s[4] * c[1] + s[5] * c[0]
}

/// The adjugate (transposed cofactor matrix): the exact integer numerators
/// of the inverse, before division by the determinant.
pub open spec fn m4_adjugate_spec(m: Mat4i) -> Mat4i {
    let s = m4_upper_minors(m);
    let c = m4_lower_minors(m);
    Mat4i {
        r0: Vec4i {
            x: m.r1.y * c[5] - m.r1.z * c[4] + m.r1.w * c[3],
            y: m.r0.z * c[4] - m.r0.y * c[5] - m.r0.w * c[3],
            z: m.r3.y * s[5] - m.r3.z * s[4] + m.r3.w * s[3],
            w: m.r2.z * s[4] - m.r2.y * s[5] - m.r2.w * s[3],
        },
        r1: Vec4i {
            x: m.r1.z * c[2] - m.r1.x * c[5] - m.r1.w * c[1],
            y: m.r0.x * c[5] - m.r0.z * c[2] + m.r0.w * c[1],
            z: m.r3.z * s[2] - m.r3.x * s[5] - m.r3.w * s[1],
            w: m.r2.x * s[5] - m.r2.z * s[2] + m.r2.w * s[1],
        },
        r2: Vec4i {
            x: m.r1.x * c[4] - m.r1.y * c[2] + m.r1.w * c[0],
            y: m.r0.y * c[2] - m.r0.x * c[4] - m.r0.w * c[0],
            z: m.r3.x * s[4] - m.r3.y * s[2] + m.r3.w * s[0],
            w: m.r2.y * s[2] - m.r2.x * s[4] - m.r2.w * s[0],
        },
        r3: Vec4i {
            x: m.r1.y * c[1] - m.r1.x * c[3] - m.r1.z * c[0],
            y: m.r0.x * c[3] - m.r0.y * c[1] + m.r0.z * c[0],
            z: m.r3.y * s[1] - m.r3.x * s[3] - m.r3.z * s[0],
            w: m.r2.x * s[3] - m.r2.y * s[1] + m.r2.z * s[0],
        },
    }
}

/// The fixed-point inverse: each adjugate entry carries two extra factors of
/// 2^16 (three raw factors over one), so it is rescaled by 2^32 and divided
/// by the exact determinant, rounded toward zero.
pub open spec fn m4_inverse_spec(m: Mat4i) -> Mat4i
    recommends
        m4_det_spec(m) != 0,
{
    let d = m4_det_spec(m);
    let a = m4_adjugate_spec(m);
    Mat4i {
        r0: Vec4i {
            x: div_trunc_by(a.r0.x * 0x1_0000_0000, d),
            y: div_trunc_by(a.r0.y * 0x1_0000_0000, d),
            z: div_trunc_by(a.r0.z * 0x1_0000_0000, d),
            w: div_trunc_by(a.r0.w * 0x1_0000_0000, d),
        },
        r1: Vec4i {
            x: div_trunc_by(a.r1.x * 0x1_0000_0000, d),
            y: div_trunc_by(a.r1.y * 0x1_0000_0000, d),
            z: div_trunc_by(a.r1.z * 0x1_0000_0000, d),
            w: div_trunc_by(a.r1.w * 0x1_0000_0000, d),
        },
        r2: Vec4i {
            x: div_trunc_by(a.r2.x * 0x1_0000_0000, d),
            y: div_trunc_by(a.r2.y * 0x1_0000_0000, d),
            z: div_trunc_by(a.r2.z * 0x1_0000_0000, d),
            w: div_trunc_by(a.r2.w * 0x1_0000_0000, d),
        },
        r3: Vec4i {
            x: div_trunc_by(a.r3.x * 0x1_0000_0000, d),
            y: div_trunc_by(a.r3.y * 0x1_0000_0000, d),
            z: div_trunc_by(a.r3.z * 0x1_0000_0000, d),
            w: div_trunc_by(a.r3.w * 0x1_0000_0000, d),
        },
    }
}

/// Column `j` of a matrix, as a vector.
pub open spec fn m4_col(b: Mat4i, j: int) -> Vec4i {
    if j == 0 {
        Vec4i { x: b.r0.x, y: b.r1.x, z: b.r2.x, w: b.r3.x }
    } else if j == 1 {
        Vec4i { x: b.r0.y, y: b.r1.y, z: b.r2.y, w: b.r3.y }
    } else if j == 2 {
        Vec4i { x: b.r0.z, y: b.r1.z, z: b.r2.z, w: b.r3.z }
    } else {
        Vec4i { x: b.r0.w, y: b.r1.w, z: b.r2.w, w: b.r3.w }
    }
}

/// The matrix product: entry `(i, j)` is the fixed-point dot product of row
/// `i` of `a` with column `j` of `b`.
pub open spec fn m4_mul_spec(a: Mat4i, b: Mat4i) -> Mat4i {
    Mat4i {
        r0: Vec4i {
            x: dot4_spec(a.r0, m4_col(b, 0)),
            y: dot4_spec(a.r0, m4_col(b, 1)),
            z: dot4_spec(a.r0, m4_col(b, 2)),
            w: dot4_spec(a.r0, m4_col(b, 3)),
        },
        r1: Vec4i {
            x: dot4_spec(a.r1, m4_col(b, 0)),
            y: dot4_spec(a.r1, m4_col(b, 1)),
            z: dot4_spec(a.r1, m4_col(b, 2)),
            w: dot4_spec(a.r1, m4_col(b, 3)),
        },
        r2: Vec4i {
            x: dot4_spec(a.r2, m4_col(b, 0)),
            y: dot4_spec(a.r2, m4_col(b, 1)),
            z: dot4_spec(a.r2, m4_col(b, 2)),
            w: dot4_spec(a.r2, m4_col(b, 3)),
        },
        r3: Vec4i {
            x: dot4_spec(a.r3, m4_col(b, 0)),
            y: dot4_spec(a.r3, m4_col(b, 1)),
            z: dot4_spec(a.r3, m4_col(b, 2)),
            w: dot4_spec(a.r3, m4_col(b, 3)),
        },
    }
}

/// A homogeneous vector transformed by a matrix: the fixed-point dot product
/// of each row with the vector.
pub open spec fn m4_xform_spec(m: Mat4i, v: Vec4i) -> Vec4i {
    Vec4i {
        x: dot4_spec(m.r0, v),
        y: dot4_spec(m.r1, v),
        z: dot4_spec(m.r2, v),
        w: dot4_spec(m.r3, v),
    }
}

/// Multiplies two fixed-point matrices.
pub fn m4_mul(a: &FxMat4, b: &FxMat4) -> (r: FxMat4)
    requires
        m4_bounded(a@, VEC_LIMIT as int),
        m4_bounded(b@, VEC_LIMIT as int),
    ensures
        r@ == m4_mul_spec(a@, b@),
{
    let c0 = FxVec4 { x: b.r0.x, y: b.r1.x, z: b.r2.x, w: b.r3.x };
    let c1 = FxVec4 { x: b.r0.y, y: b.r1.y, z: b.r2.y, w: b.r3.y };
    let c2 = FxVec4 { x: b.r0.z, y: b.r1.z, z: b.r2.z, w: b.r3.z };
    let c3 = FxVec4 { x: b.r0.w, y: b.r1.w, z: b.r2.w, w: b.r3.w };
    FxMat4 {
        r0: FxVec4 {
            x: v4_dot(a.r0, c0),
            y: v4_dot(a.r0, c1),
            z: v4_dot(a.r0, c2),
            w: v4_dot(a.r0, c3),
        },
        r1: FxVec4 {
            x: v4_dot(a.r1, c0),
            y: v4_dot(a.r1, c1),
            z: v4_dot(a.r1, c2),
            w: v4_dot(a.r1, c3),
        },
        r2: FxVec4 {
            x: v4_dot(a.r2, c0),
            y: v4_dot(a.r2, c1),
            z: v4_dot(a.r2, c2),
            w: v4_dot(a.r2, c3),
        },
        r3: FxVec4 {
            x: v4_dot(a.r3, c0),
            y: v4_dot(a.r3, c1),
            z: v4_dot(a.r3, c2),
            w: v4_dot(a.r3, c3),
        },
    }
}

/// Transforms a homogeneous fixed-point vector by a matrix.
pub fn m4_xform(m: &FxMat4, v: FxVec4) -> (r: FxVec4)
    requires
        m4_bounded(m@, VEC_LIMIT as int),
        v4_bounded(v@, VEC_LIMIT as int),
    ensures
        r@ == m4_xform_spec(m@, v@),
{
    FxVec4 { x: v4_dot(m.r0, v), y: v4_dot(m.r1, v), z: v4_dot(m.r2, v), w: v4_dot(m.r3, v) }
}

/// Inverts a fixed-point matrix through its exact integer adjugate.
///
/// Returns the inverse when the determinant is nonzero and every inverse
/// entry fits the matrix entry limit; `None` exactly when the matrix is
/// singular or an inverse entry overflows that limit.
#[verifier::rlimit(100)]
pub fn m4_inverse(m: &FxMat4) -> (r: Option<FxMat4>)
    requires
        m4_bounded(m@, MAT_LIMIT as int),
    ensures
        match r {
            Some(inv) => m4_det_spec(m@) != 0 && inv@ == m4_inverse_spec(m@) && m4_bounded(
                inv@,
                MAT_LIMIT as int,
            ),
            None => m4_det_spec(m@) == 0 || !m4_bounded(m4_inverse_spec(m@), MAT_LIMIT as int),
        },
{
    let ghost bent: int = 0x4000_0000;
    let ghost bmin: int = 0x2000_0000_0000_0000;
    let ghost badj: int = 0x3000_0000_0000_0000_0000_0000;
    let s0 = i128_mul(m.r0.x as i128, m.r1.y as i128, Ghost(bent), Ghost(bent)) - i128_mul(
        m.r0.y as i128,
        m.r1.x as i128,
        Ghost(bent),
        Ghost(bent),
    );
    let s1 = i128_mul(m.r0.x as i128, m.r1.z as i128, Ghost(bent), Ghost(bent)) - i128_mul(
        m.r0.z as i128,
        m.r1.x as i128,
        Ghost(bent),
        Ghost(bent),
    );
    let s2 = i128_mul(m.r0.x as i128, m.r1.w as i128, Ghost(bent), Ghost(bent)) - i128_mul(
        m.r0.w as i128,
        m.r1.x as i128,
        Ghost(bent),
        Ghost(bent),
    );
    let s3 = i128_mul(m.r0.y as i128, m.r1.z as i128, Ghost(bent), Ghost(bent)) - i128_mul(
        m.r0.z as i128,
        m.r1.y as i128,
        Ghost(bent),
        Ghost(bent),
    );
    let s4 = i128_mul(m.r0.y as i128, m.r1.w as i128, Ghost(bent), Ghost(bent)) - i128_mul(
        m.r0.w as i128,
        m.r1.y as i128,
        Ghost(bent),
        Ghost(bent),
    );
    let s5 = i128_mul(m.r0.z as i128, m.r1.w as i128, Ghost(bent), Ghost(bent)) - i128_mul(
        m.r0.w as i128,
        m.r1.z as i128,
        Ghost(bent),
        Ghost(bent),
    );
    let c0 = i128_mul(m.r2.x as i128, m.r3.y as i128, Ghost(bent), Ghost(bent)) - i128_mul(
        m.r2.y as i128,
        m.r3.x as i128,
        Ghost(bent),
        Ghost(bent),
    );
    let c1 = i128_mul(m.r2.x as i128, m.r3.z as i128, Ghost(bent), Ghost(bent)) - i128_mul(
        m.r2.z as i128,
        m.r3.x as i128,
        Ghost(bent),
        Ghost(bent),
    );
    let c2 = i128_mul(m.r2.x as i128, m.r3.w as i128, Ghost(bent), Ghost(bent)) - i128_mul(
        m.r2.w as i128,
        m.r3.x as i128,
        Ghost(bent),
        Ghost(bent),
    );
    let c3 = i128_mul(m.r2.y as i128, m.r3.z as i128, Ghost(bent), Ghost(bent)) - i128_mul(
        m.r2.z as i128,
        m.r3.y as i128,
        Ghost(bent),
        Ghost(bent),
    );
    let c4 = i128_mul(m.r2.y as i128, m.r3.w as i128, Ghost(bent), Ghost(bent)) - i128_mul(
        m.r2.w as i128,
        m.r3.y as i128,
        Ghost(bent),
        Ghost(bent),
    );
    let c5 = i128_mul(m.r2.z as i128, m.r3.w as i128, Ghost(bent), Ghost(bent)) - i128_mul(
        m.r2.w as i128,
        m.r3.z as i128,
        Ghost(bent),
        Ghost(bent),
    );
    let det = i128_mul(s0, c5, Ghost(bmin), Ghost(bmin)) - i128_mul(s1, c4, Ghost(bmin), Ghost(bmin))
        + i128_mul(s2, c3, Ghost(bmin), Ghost(bmin)) + i128_mul(s3, c2, Ghost(bmin), Ghost(bmin))
        - i128_mul(s4, c1, Ghost(bmin), Ghost(bmin)) + i128_mul(s5, c0, Ghost(bmin), Ghost(bmin));
    proof {
        let sm = m4_upper_minors(m@);
        let cm = m4_lower_minors(m@);
        assert(sm[0] == s0 && sm[1] == s1 && sm[2] == s2 && sm[3] == s3 && sm[4] == s4 && sm[5]
            == s5);
        assert(cm[0] == c0 && cm[1] == c1 && cm[2] == c2 && cm[3] == c3 && cm[4] == c4 && cm[5]
            == c5);
        assert(m4_det_spec(m@) == det);
    }
    if det == 0 {
        return None;
    }
    let n00 = i128_mul(m.r1.y as i128, c5, Ghost(bent), Ghost(bmin)) - i128_mul(
        m.r1.z as i128,
        c4,
        Ghost(bent),
        Ghost(bmin),
    ) + i128_mul(m.r1.w as i128, c3, Ghost(bent), Ghost(bmin));
    let n01 = -i128_mul(m.r0.y as i128, c5, Ghost(bent), Ghost(bmin)) + i128_mul(
        m.r0.z as i128,
        c4,
        Ghost(bent),
        Ghost(bmin),
    ) - i128_mul(m.r0.w as i128, c3, Ghost(bent), Ghost(bmin));
    let n02 = i128_mul(m.r3.y as i128, s5, Ghost(bent), Ghost(bmin)) - i128_mul(
        m.r3.z as i128,
        s4,
        Ghost(bent),
        Ghost(bmin),
    ) + i128_mul(m.r3.w as i128, s3, Ghost(bent), Ghost(bmin));
    let n03 = -i128_mul(m.r2.y as i128, s5, Ghost(bent), Ghost(bmin)) + i128_mul(
        m.r2.z as i128,
        s4,
        Ghost(bent),
        Ghost(bmin),
    ) - i128_mul(m.r2.w as i128, s3, Ghost(bent), Ghost(bmin));
    let n10 = -i128_mul(m.r1.x as i128, c5, Ghost(bent), Ghost(bmin)) + i128_mul(
        m.r1.z as i128,
        c2,
        Ghost(bent),
        Ghost(bmin),
    ) - i128_mul(m.r1.w as i128, c1, Ghost(bent), Ghost(bmin));
    let n11 = i128_mul(m.r0.x as i128, c5, Ghost(bent), Ghost(bmin)) - i128_mul(
        m.r0.z as i128,
        c2,
        Ghost(bent),
        Ghost(bmin),
    ) + i128_mul(m.r0.w as i128, c1, Ghost(bent), Ghost(bmin));
    let n12 = -i128_mul(m.r3.x as i128, s5, Ghost(bent), Ghost(bmin)) + i128_mul(
        m.r3.z as i128,
        s2,
        Ghost(bent),
        Ghost(bmin),
    ) - i128_mul(m.r3.w as i128, s1, Ghost(bent), Ghost(bmin));
    let n13 = i128_mul(m.r2.x as i128, s5, Ghost(bent), Ghost(bmin)) - i128_mul(
        m.r2.z as i128,
        s2,
        Ghost(bent),
        Ghost(bmin),
    ) + i128_mul(m.r2.w as i128, s1, Ghost(bent), Ghost(bmin));
    let n20 = i128_mul(m.r1.x as i128, c4, Ghost(bent), Ghost(bmin)) - i128_mul(
        m.r1.y as i128,
        c2,
        Ghost(bent),
        Ghost(bmin),
    ) + i128_mul(m.r1.w as i128, c0, Ghost(bent), Ghost(bmin));
    let n21 = -i128_mul(m.r0.x as i128, c4, Ghost(bent), Ghost(bmin)) + i128_mul(
        m.r0.y as i128,
        c2,
        Ghost(bent),
        Ghost(bmin),
    ) - i128_mul(m.r0.w as i128, c0, Ghost(bent), Ghost(bmin));
    let n22 = i128_mul(m.r3.x as i128, s4, Ghost(bent), Ghost(bmin)) - i128_mul(
        m.r3.y as i128,
        s2,
        Ghost(bent),
        Ghost(bmin),
    ) + i128_mul(m.r3.w as i128, s0, Ghost(bent), Ghost(bmin));
    let n23 = -i128_mul(m.r2.x as i128, s4, Ghost(bent), Ghost(bmin)) + i128_mul(
        m.r2.y as i128,
        s2,
        Ghost(bent),
        Ghost(bmin),
    ) - i128_mul(m.r2.w as i128, s0, Ghost(bent), Ghost(bmin));
    let n30 = -i128_mul(m.r1.x as i128, c3, Ghost(bent), Ghost(bmin)) + i128_mul(
        m.r1.y as i128,
        c1,
        Ghost(bent),
        Ghost(bmin),
    ) - i128_mul(m.r1.z as i128, c0, Ghost(bent), Ghost(bmin));
    let n31 = i128_mul(m.r0.x as i128, c3, Ghost(bent), Ghost(bmin)) - i128_mul(
        m.r0.y as i128,
        c1,
        Ghost(bent),
        Ghost(bmin),
    ) + i128_mul(m.r0.z as i128, c0, Ghost(bent), Ghost(bmin));
    let n32 = -i128_mul(m.r3.x as i128, s3, Ghost(bent), Ghost(bmin)) + i128_mul(
        m.r3.y as i128,
        s1,
        Ghost(bent),
        Ghost(bmin),
    ) - i128_mul(m.r3.z as i128, s0, Ghost(bent), Ghost(bmin));
    let n33 = i128_mul(m.r2.x as i128, s3, Ghost(bent), Ghost(bmin)) - i128_mul(
        m.r2.y as i128,
        s1,
        Ghost(bent),
        Ghost(bmin),
    ) + i128_mul(m.r2.z as i128, s0, Ghost(bent), Ghost(bmin));
    proof {
        let sm = m4_upper_minors(m@);
        let cm = m4_lower_minors(m@);
        let adj = m4_adjugate_spec(m@);
        lemma_cof3(m@.r1.y, m@.r1.z, m@.r1.w, c5 as int, c4 as int, c3 as int, cm[5], cm[4], cm[3]);
        lemma_cof3(m@.r0.y, m@.r0.z, m@.r0.w, c5 as int, c4 as int, c3 as int, cm[5], cm[4], cm[3]);
        lemma_cof3(m@.r3.y, m@.r3.z, m@.r3.w, s5 as int, s4 as int, s3 as int, sm[5], sm[4], sm[3]);
        lemma_cof3(m@.r2.y, m@.r2.z, m@.r2.w, s5 as int, s4 as int, s3 as int, sm[5], sm[4], sm[3]);
        lemma_cof3(m@.r1.x, m@.r1.z, m@.r1.w, c5 as int, c2 as int, c1 as int, cm[5], cm[2], cm[1]);
        lemma_cof3(m@.r0.x, m@.r0.z, m@.r0.w, c5 as int, c2 as int, c1 as int, cm[5], cm[2], cm[1]);
        lemma_cof3(m@.r3.x, m@.r3.z, m@.r3.w, s5 as int, s2 as int, s1 as int, sm[5], sm[2], sm[1]);
        lemma_cof3(m@.r2.x, m@.r2.z, m@.r2.w, s5 as int, s2 as int, s1 as int, sm[5], sm[2], sm[1]);
        lemma_cof3(m@.r1.x, m@.r1.y, m@.r1.w, c4 as int, c2 as int, c0 as int, cm[4], cm[2], cm[0]);
        lemma_cof3(m@.r0.x, m@.r0.y, m@.r0.w, c4 as int, c2 as int, c0 as int, cm[4], cm[2], cm[0]);
        lemma_cof3(m@.r3.x, m@.r3.y, m@.r3.w, s4 as int, s2 as int, s0 as int, sm[4], sm[2], sm[0]);
        lemma_cof3(m@.r2.x, m@.r2.y, m@.r2.w, s4 as int, s2 as int, s0 as int, sm[4], sm[2], sm[0]);
        lemma_cof3(m@.r1.x, m@.r1.y, m@.r1.z, c3 as int, c1 as int, c0 as int, cm[3], cm[1], cm[0]);
        lemma_cof3(m@.r0.x, m@.r0.y, m@.r0.z, c3 as int, c1 as int, c0 as int, cm[3], cm[1], cm[0]);
        lemma_cof3(m@.r3.x, m@.r3.y, m@.r3.z, s3 as int, s1 as int, s0 as int, sm[3], sm[1], sm[0]);
        lemma_cof3(m@.r2.x, m@.r2.y, m@.r2.z, s3 as int, s1 as int, s0 as int, sm[3], sm[1], sm[0]);
        assert(adj.r0.x == n00);
        assert(adj.r0.y == n01);
        assert(adj.r0.z == n02);
        assert(adj.r0.w == n03);
        assert(adj.r1.x == n10);
        assert(adj.r1.y == n11);
        assert(adj.r1.z == n12);
        assert(adj.r1.w == n13);
        assert(adj.r2.x == n20);
        assert(adj.r2.y == n21);
        assert(adj.r2.z == n22);
        assert(adj.r2.w == n23);
        assert(adj.r3.x == n30);
        assert(adj.r3.y == n31);
        assert(adj.r3.z == n32);
        assert(adj.r3.w == n33);
    }
    let q00 = entry_div(n00, det);
    let q01 = entry_div(n01, det);
    let q02 = entry_div(n02, det);
    let q03 = entry_div(n03, det);
    let q10 = entry_div(n10, det);
    let q11 = entry_div(n11, det);
    let q12 = entry_div(n12, det);
    let q13 = entry_div(n13, det);
    let q20 = entry_div(n20, det);
    let q21 = entry_div(n21, det);
    let q22 = entry_div(n22, det);
    let q23 = entry_div(n23, det);
    let q30 = entry_div(n30, det);
    let q31 = entry_div(n31, det);
    let q32 = entry_div(n32, det);
    let q33 = entry_div(n33, det);
    if q00.is_none() || q01.is_none() || q02.is_none() || q03.is_none() || q10.is_none()
        || q11.is_none() || q12.is_none() || q13.is_none() || q20.is_none() || q21.is_none()
        || q22.is_none() || q23.is_none() || q30.is_none() || q31.is_none() || q32.is_none()
        || q33.is_none() {
        return None;
    }
    Some(
        FxMat4 {
            r0: FxVec4 {
                x: q00.unwrap(),
                y: q01.unwrap(),
                z: q02.unwrap(),
                w: q03.unwrap(),
            },
            r1: FxVec4 {
                x: q10.unwrap(),
                y: q11.unwrap(),
                z: q12.unwrap(),
                w: q13.unwrap(),
            },
            r2: FxVec4 {
                x: q20.unwrap(),
                y: q21.unwrap(),
                z: q22.unwrap(),
                w: q23.unwrap(),
            },
            r3: FxVec4 {
                x: q30.unwrap(),
                y: q31.unwrap(),
                z: q32.unwrap(),
                w: q33.unwrap(),
            },
        },
    )
}

/// A three-term cofactor combination is stable under replacing each minor
/// by an equal value (a congruence nudge for the adjugate bookkeeping).
proof fn lemma_cof3(a1: int, a2: int, a3: int, b1: int, b2: int, b3: int, d1: int, d2: int, d3: int)
    requires
        b1 == d1,
        b2 == d2,
        b3 == d3,
    ensures
        a1 * b1 - a2 * b2 + a3 * b3 == a1 * d1 - a2 * d2 + a3 * d3,
{
}

/// Rescales one adjugate entry and divides it by the determinant, reporting
/// `None` when the quotient misses the matrix entry limit.
fn entry_div(num: i128, det: i128) -> (r: Option<i64>)
    requires
        det != 0,
        -0x3000_0000_0000_0000_0000_0000 <= num <= 0x3000_0000_0000_0000_0000_0000,
        -0x4000_0000_0000_0000_0000_0000_0000_0000 <= det <= 0x4000_0000_0000_0000_0000_0000_0000_0000,
    ensures
        match r {
            Some(q) => q == div_trunc_by(num as int * 0x1_0000_0000, det as int) && -MAT_LIMIT <= q
                <= MAT_LIMIT,
            None => !(-MAT_LIMIT <= div_trunc_by(num as int * 0x1_0000_0000, det as int)
                <= MAT_LIMIT),
        },
{
    let q = i128_div_trunc_by(num * 0x1_0000_0000, det);
    if -0x4000_0000 <= q && q <= 0x4000_0000 {
        Some(q as i64)
    } else {
        None
    }
}

} // verus!
