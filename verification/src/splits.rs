//! The split calculator: partitions the view depth range `[near, far]` into
//! three cascade intervals by blending a uniform and a logarithmic scheme.
//!
//! For partition index `k` in `1..=3` with `p = k / 3`:
//!
//! * the logarithmic split is `near * (far / near)^p`, carried here as the
//!   integer cube root of `near^(3-k) * far^k`;
//! * the uniform split is `near + (far - near) * p`;
//! * the blend is `lambda * (log - uniform) + uniform`, so `lambda = 0` gives
//!   the pure uniform partition and `lambda = 1` the pure logarithmic one;
//! * the reported value is the fraction `(blend - near) / (far - near)` of
//!   the clip range, in fixed-point (so `65536` stands for the far plane).

use vstd::prelude::*;

use crate::fixed::cbrt_floor;
use crate::fixed::div_trunc;
use crate::fixed::i128_div_trunc;
use crate::fixed::is_cbrt_floor;
use crate::fixed::lemma_div_trunc_le;
use crate::fixed::u128_cbrt_floor;

verus! {

/// Largest clip-plane distance the calculator accepts (2^30 raw, or about
/// sixteen million units): keeps every intermediate product inside `u128`.
pub const MAX_CLIP: i64 = 0x4000_0000;

/// Largest magnitude accepted for the blend factor (16 units): `lambda` is
/// normally within `[0, 1]` but out-of-range values merely extrapolate.
pub const MAX_LAMBDA: i64 = 0x10_0000;

/// The logarithmic split point for partition `k` of 3: the real value
/// `near * (far / near)^(k/3)` equals the cube root of `near^(3-k) * far^k`,
/// rounded down to an integer here.
pub open spec fn log_split_spec(near: int, far: int, k: int) -> int
    recommends
        0 < near <= far,
        1 <= k <= 3,
{
    if k <= 1 {
        cbrt_floor(near * near * far)
    } else if k == 2 {
        cbrt_floor(near * far * far)
    } else {
        cbrt_floor(far * far * far)
    }
}

/// The uniform split point for partition `k` of 3:
/// `near + (far - near) * (k / 3)`, rounded toward zero.
pub open spec fn uniform_split_spec(near: int, far: int, k: int) -> int
    recommends
        0 < near <= far,
        1 <= k <= 3,
{
    near + div_trunc((far - near) * k, 3)
}

/// The blended split point: `lambda * (log - uniform) + uniform`, with the
/// fixed-point blend factor divided back out at the end.
pub open spec fn blended_split_spec(near: int, far: int, lambda: int, k: int) -> int {
    div_trunc(
        lambda * (log_split_spec(near, far, k) - uniform_split_spec(near, far, k)) + 65536
            * uniform_split_spec(near, far, k),
        65536,
    )
}

/// The blended split point as a fixed-point fraction of the clip range:
/// `(d - near) / (far - near)` where `d` is the blended split.
pub open spec fn split_fraction_spec(near: int, far: int, lambda: int, k: int) -> int {
    div_trunc((blended_split_spec(near, far, lambda, k) - near) * 65536, far - near)
}

/// The logarithmic split point for partition `k`.
fn log_split(near_clip: i64, far_clip: i64, k: u8) -> (r: i64)
    requires
        0 < near_clip <= far_clip <= MAX_CLIP,
        1 <= k <= 3,
    ensures
        r == log_split_spec(near_clip as int, far_clip as int, k as int),
        near_clip <= r <= far_clip,
{
    let n = near_clip as u128;
    let f = far_clip as u128;
    assert(n * n <= f * f <= 0x1000_0000_0000_0000u128 && n * f <= f * f && n * n * f <= f * f * f
        < 0x2000_0000_0000_0000_0000_0000 && n * f * f <= f * f * f && n * n * f >= n * n * n && n
        * f * f >= n * n * n) by (nonlinear_arith)
        requires
            0 < n <= f <= 0x4000_0000u128,
    ;
    let prod: u128 = if k == 1 {
        n * n * f
    } else if k == 2 {
        n * f * f
    } else {
        f * f * f
    };
    let c = u128_cbrt_floor(prod);
    proof {
        assert(n * n * n <= prod && prod < (f + 1) * (f + 1) * (f + 1)) by (nonlinear_arith)
            requires
                0 < n <= f,
                n * n * n <= prod <= f * f * f,
        ;
        assert(n <= c <= f) by (nonlinear_arith)
            requires
                0 <= c,
                (c as int) * (c as int) * (c as int) <= prod,
                prod < (c + 1) * (c + 1) * (c + 1),
                n * n * n <= prod,
                prod < (f + 1) * (f + 1) * (f + 1),
                0 < n <= f,
        ;
    }
    c as i64
}

/// The uniform split point for partition `k`.
fn uniform_split(near_clip: i64, far_clip: i64, k: u8) -> (r: i64)
    requires
        0 < near_clip <= far_clip <= MAX_CLIP,
        1 <= k <= 3,
    ensures
        r == uniform_split_spec(near_clip as int, far_clip as int, k as int),
        near_clip <= r <= far_clip,
{
    let range = (far_clip - near_clip) as u64;
    proof {
        assert(range * (k as u64) <= 3 * range) by (nonlinear_arith)
            requires
                k <= 3,
                range >= 0,
        ;
    }
    let step = (range * (k as u64)) / 3;
    proof {
        assert(step <= range) by (nonlinear_arith)
            requires
                step == (range * (k as u64)) / 3,
                k <= 3,
                range >= 0,
        ;
    }
    near_clip + step as i64
}

/// The blended split point for partition `k`.
fn blended_split(near_clip: i64, far_clip: i64, cascade_split_lambda: i64, k: u8) -> (d: i64)
    requires
        0 < near_clip <= far_clip <= MAX_CLIP,
        -MAX_LAMBDA <= cascade_split_lambda <= MAX_LAMBDA,
        1 <= k <= 3,
    ensures
        d == blended_split_spec(
            near_clip as int,
            far_clip as int,
            cascade_split_lambda as int,
            k as int,
        ),
        -0x10_0000_0000 <= d <= 0x10_0000_0000,
{
    let lg = log_split(near_clip, far_clip, k);
    let un = uniform_split(near_clip, far_clip, k);
    proof {
        assert(-(0x10_0000int * 0x8000_0000) <= (cascade_split_lambda as int) * ((lg - un) as int)
            <= 0x10_0000int * 0x8000_0000) by (nonlinear_arith)
            requires
                -0x10_0000 <= cascade_split_lambda <= 0x10_0000,
                -0x8000_0000 <= lg - un <= 0x8000_0000,
        ;
    }
    let x: i128 = (cascade_split_lambda as i128) * ((lg - un) as i128) + 65536i128 * (un as i128);
    let d = i128_div_trunc(x, 65536);
    proof {
        lemma_div_trunc_le(x as int, 65536, 0x10_0000_0000);
    }
    d as i64
}

/// The fixed-point fraction of the clip range at which partition `k` ends.
fn split_fraction(near_clip: i64, far_clip: i64, cascade_split_lambda: i64, k: u8) -> (r: i64)
    requires
        0 < near_clip < far_clip <= MAX_CLIP,
        -MAX_LAMBDA <= cascade_split_lambda <= MAX_LAMBDA,
        1 <= k <= 3,
    ensures
        r == split_fraction_spec(
            near_clip as int,
            far_clip as int,
            cascade_split_lambda as int,
            k as int,
        ),
{
    let d = blended_split(near_clip, far_clip, cascade_split_lambda, k);
    let y: i128 = ((d as i128) - (near_clip as i128)) * 65536;
    let q = i128_div_trunc(y, (far_clip - near_clip) as i128);
    proof {
        let m: int = 0x20_0000_0000_0000int;
        assert(m * 1 <= m * ((far_clip - near_clip) as int)) by (nonlinear_arith)
            requires
                m >= 0,
                far_clip - near_clip >= 1,
        ;
        lemma_div_trunc_le(y as int, (far_clip - near_clip) as int, m);
    }
    q as i64
}

/// Calculate split depths based on the view camera frustum, blending uniform
/// and logarithmic partitions under `cascade_split_lambda`.
///
/// The result holds fixed-point fractions of the clip range: entry 0 is the
/// near plane (always `0`), and entries 1 to 3 are the cumulative split
/// fractions given by `split_fraction_spec`.
pub fn calculate_split_cascades(near_clip: i64, far_clip: i64, cascade_split_lambda: i64) -> (r: [
    i64; 4])
    requires
        0 < near_clip < far_clip <= MAX_CLIP,
        -MAX_LAMBDA <= cascade_split_lambda <= MAX_LAMBDA,
    ensures
        r[0] == 0,
        forall|k: int|
            1 <= k <= 3 ==> r[k] == split_fraction_spec(
                near_clip as int,
                far_clip as int,
                cascade_split_lambda as int,
                k,
            ),
{
    let f1 = split_fraction(near_clip, far_clip, cascade_split_lambda, 1);
    let f2 = split_fraction(near_clip, far_clip, cascade_split_lambda, 2);
    let f3 = split_fraction(near_clip, far_clip, cascade_split_lambda, 3);
    let r = [0i64, f1, f2, f3];
    r
}

/// Where the four split fractions come from: derived from a blend factor by
/// the split calculator, or supplied directly for manual per-cascade tuning.
#[derive(Debug, Copy, Clone)]
pub enum SplitConfig {
    Lambda(i64),
    Manual([i64; 4]),
}

/// Resolves a split configuration to the four cumulative split fractions
/// that the light-frustum fitter consumes.
pub fn resolve_splits(config: &SplitConfig, near_clip: i64, far_clip: i64) -> (r: [i64; 4])
    requires
        0 < near_clip < far_clip <= MAX_CLIP,
        (config matches SplitConfig::Lambda(l) ==> -MAX_LAMBDA <= *l <= MAX_LAMBDA),
    ensures
        match config {
            SplitConfig::Lambda(l) => r[0] == 0 && forall|k: int|
                1 <= k <= 3 ==> r[k] == split_fraction_spec(
                    near_clip as int,
                    far_clip as int,
                    *l as int,
                    k,
                ),
            SplitConfig::Manual(a) => r@ == a@,
        },
{
    match config {
        SplitConfig::Lambda(l) => calculate_split_cascades(near_clip, far_clip, *l),
        SplitConfig::Manual(a) => *a,
    }
}

/// A blend factor of zero reproduces the pure uniform partition: the blended
/// split equals the uniform split, and the reported fraction is exactly the
/// uniform split's fraction of the clip range.
pub proof fn lemma_lambda_zero_uniform(near: int, far: int, k: int)
    requires
        0 < near < far,
        1 <= k <= 3,
    ensures
        blended_split_spec(near, far, 0, k) == uniform_split_spec(near, far, k),
        split_fraction_spec(near, far, 0, k) == div_trunc(
            (uniform_split_spec(near, far, k) - near) * 65536,
            far - near,
        ),
{
    crate::fixed::lemma_div_trunc_mul_exact(uniform_split_spec(near, far, k), 65536);
}

/// A blend factor of one reproduces the pure logarithmic partition: the
/// blended split equals the logarithmic split, and the reported fraction is
/// exactly the logarithmic split's fraction of the clip range.
pub proof fn lemma_lambda_one_logarithmic(near: int, far: int, k: int)
    requires
        0 < near < far,
        1 <= k <= 3,
    ensures
        blended_split_spec(near, far, 65536, k) == log_split_spec(near, far, k),
        split_fraction_spec(near, far, 65536, k) == div_trunc(
            (log_split_spec(near, far, k) - near) * 65536,
            far - near,
        ),
{
    let lg = log_split_spec(near, far, k);
    let un = uniform_split_spec(near, far, k);
    vstd::arithmetic::mul::lemma_mul_is_distributive_sub(65536, lg, un);
    assert(65536 * (lg - un) + 65536 * un == 65536 * lg);
    crate::fixed::lemma_div_trunc_mul_exact(lg, 65536);
}

/// A doubling under the cube root advances the root by a fifth of any lower
/// witness: if `c^3 <= pp`, `5 * g <= c` and `2 * pp <= qq`, then the cube
/// root of `qq` is at least `c + g`.
proof fn lemma_cbrt_step(pp: int, qq: int, c: int, g: int)
    requires
        0 <= c,
        0 <= g,
        5 * g <= c,
        c * c * c <= pp,
        2 * pp <= qq,
    ensures
        is_cbrt_floor(qq, cbrt_floor(qq)),
        cbrt_floor(qq) >= c + g,
{
    assert(0 <= c * c * c) by (nonlinear_arith)
        requires
            0 <= c,
    ;
    crate::fixed::lemma_cbrt_floor_exists(qq);
    let d = cbrt_floor(qq);
    let s = c + g;
    assert(5 * s <= 6 * c);
    assert((5 * s) * (5 * s) * (5 * s) <= (6 * c) * (6 * c) * (6 * c)) by (nonlinear_arith)
        requires
            0 <= 5 * s,
            5 * s <= 6 * c,
    ;
    assert((5 * s) * (5 * s) * (5 * s) == 125 * (s * s * s) && (6 * c) * (6 * c) * (6 * c) == 216
        * (c * c * c)) by (nonlinear_arith);
    assert(125 * (s * s * s) <= 216 * pp) by (nonlinear_arith)
        requires
            125 * (s * s * s) <= 216 * (c * c * c),
            c * c * c <= pp,
    ;
    assert(216 * pp <= 108 * qq && 0 <= qq);
    assert(s * s * s <= qq);
    assert(d >= c + g) by (nonlinear_arith)
        requires
            0 <= d,
            qq < (d + 1) * (d + 1) * (d + 1),
            (c + g) * (c + g) * (c + g) <= qq,
            0 <= c + g,
    ;
}

/// Both component gaps advancing by at least `t` forces the blended split to
/// advance by at least `t`, and components at least `m` keep the blend at
/// least `m`.
proof fn lemma_blend_gap(lambda: int, ca: int, cb: int, ua: int, ub: int, t: int, m: int)
    requires
        0 <= lambda <= 65536,
        0 <= t,
        0 <= m <= ca,
        m <= ua,
        cb - ca >= t,
        ub - ua >= t,
    ensures
        div_trunc(lambda * (cb - ub) + 65536 * ub, 65536) >= div_trunc(
            lambda * (ca - ua) + 65536 * ua,
            65536,
        ) + t,
        div_trunc(lambda * (ca - ua) + 65536 * ua, 65536) >= m,
{
    let na = lambda * (ca - ua) + 65536 * ua;
    let nb = lambda * (cb - ub) + 65536 * ub;
    assert(na >= 65536 * m && nb >= na + 65536 * t) by (nonlinear_arith)
        requires
            0 <= lambda <= 65536,
            0 <= t,
            0 <= m <= ca,
            m <= ua,
            cb - ca >= t,
            ub - ua >= t,
            na == lambda * (ca - ua) + 65536 * ua,
            nb == lambda * (cb - ub) + 65536 * ub,
    ;
    crate::fixed::lemma_div_trunc_mono(na + 65536 * t, nb, 65536);
    assert(na - 65536 * m >= 0);
    crate::fixed::lemma_div_trunc_add_mul(na - 65536 * m, 65536, m);
    assert(na - 65536 * m + m * 65536 == na);
    crate::fixed::lemma_div_trunc_add_mul(na - 65536 * m, 65536, t + m);
    assert(na - 65536 * m + (t + m) * 65536 == na + 65536 * t);
    assert(div_trunc(na - 65536 * m, 65536) >= 0) by {
        crate::fixed::lemma_div_trunc_le(na - 65536 * m, 65536, na - 65536 * m);
    }
}

/// Split monotonicity: with a blend factor in `[0, 1]`, the three split
/// fractions strictly increase, the first lies strictly above the near
/// plane, and the last lands exactly on the far plane. Stated for cameras
/// whose far plane lies between 2 and 4096 times the near plane and whose
/// near plane is at least 8 raw units; at finer separations neighbouring
/// fixed-point splits can collide on the same grid value.
pub proof fn lemma_split_monotonic(near: int, far: int, lambda: int)
    requires
        8 <= near,
        2 * near <= far,
        far <= 4096 * near,
        far <= 0x4000_0000,
        0 <= lambda <= 65536,
    ensures
        0 < split_fraction_spec(near, far, lambda, 1),
        split_fraction_spec(near, far, lambda, 1) < split_fraction_spec(near, far, lambda, 2),
        split_fraction_spec(near, far, lambda, 2) < split_fraction_spec(near, far, lambda, 3),
        split_fraction_spec(near, far, lambda, 3) == 65536,
{
    let n = near;
    let f = far;
    let r = f - n;
    let p1 = n * n * f;
    let p2 = n * f * f;
    let p3 = f * f * f;
    let g = n / 5;
    assert(2 * (n * n * n) <= p1 && 2 * p1 <= p2 && 2 * p2 <= p3 && 0 <= n * n * n)
        by (nonlinear_arith)
        requires
            0 < n,
            2 * n <= f,
            p1 == n * n * f,
            p2 == n * f * f,
            p3 == f * f * f,
    ;
    crate::fixed::lemma_cbrt_cube(n);
    crate::fixed::lemma_cbrt_cube(f);
    let c1 = cbrt_floor(p1);
    let c2 = cbrt_floor(p2);
    assert(5 * g <= n);
    lemma_cbrt_step(n * n * n, p1, n, g);
    lemma_cbrt_step(p1, p2, c1, g);
    lemma_cbrt_step(p2, p3, c2, g);
    assert(cbrt_floor(p3) == f);
    // The uniform splits at thirds of the clip range.
    let u1 = uniform_split_spec(n, f, 1);
    let u2 = uniform_split_spec(n, f, 2);
    let u3 = uniform_split_spec(n, f, 3);
    assert(u1 == n + (r * 1) / 3 && u2 == n + (r * 2) / 3 && u3 == n + (r * 3) / 3);
    assert(u3 == f);
    let du = (r - 2) / 3;
    assert(u1 - n >= du && u2 - u1 >= du && u3 - u2 >= du && du >= 2);
    // The common advance of both partition schemes, per step.
    let t = if g <= du {
        g
    } else {
        du
    };
    // Either advance covers one 65536th of the clip range.
    assert(65536 * (5 * g) >= 65536 * (n - 4) && 65536 * (n - 4) >= 5 * (4095 * n) && r <= 4095
        * n);
    assert(65536 * g >= r && 65536 * du >= r && 65536 * t >= r);
    // Blend the logarithmic and uniform advances step by step.
    let d0 = div_trunc(lambda * (n - n) + 65536 * n, 65536);
    let d1 = blended_split_spec(n, f, lambda, 1);
    let d2 = blended_split_spec(n, f, lambda, 2);
    let d3 = blended_split_spec(n, f, lambda, 3);
    lemma_blend_gap(lambda, n, c1, n, u1, t, n);
    lemma_blend_gap(lambda, c1, c2, u1, u2, t, n);
    lemma_blend_gap(lambda, c2, f, u2, u3, t, n);
    crate::fixed::lemma_div_trunc_mul_exact(n, 65536);
    assert(lambda * (n - n) + 65536 * n == 65536 * n);
    assert(d0 == n);
    // The last cascade lands exactly on the far plane.
    vstd::arithmetic::mul::lemma_mul_is_distributive_sub(lambda, f, u3);
    assert(lambda * (f - u3) + 65536 * u3 == 65536 * f);
    crate::fixed::lemma_div_trunc_mul_exact(f, 65536);
    assert(d3 == f);
    crate::fixed::lemma_div_trunc_mul_exact(65536, r);
    assert(r * 65536 == r * 65536);
    assert(split_fraction_spec(n, f, lambda, 3) == div_trunc((f - n) * 65536, r));
    assert((f - n) * 65536 == r * 65536);
    assert(split_fraction_spec(n, f, lambda, 3) == 65536);
    // Each fraction strictly exceeds the previous one.
    assert(d1 >= d0 + t && d2 >= d1 + t && d3 >= d2 + t && d0 == n);
    crate::fixed::lemma_div_trunc_strict((d0 - n) * 65536, (d1 - n) * 65536, r);
    crate::fixed::lemma_div_trunc_strict((d1 - n) * 65536, (d2 - n) * 65536, r);
    crate::fixed::lemma_div_trunc_strict((d2 - n) * 65536, (d3 - n) * 65536, r);
    assert(div_trunc((d0 - n) * 65536, r) == 0);
}

} // verus!
