//! Q48.16 fixed-point scalars: the arithmetic base of the whole crate.
//!
//! A quantity is an `i64` raw value standing for `raw / 65536` real units.
//! Every operation rounds toward zero, exactly as Rust's integer division
//! does, and every executable function is pinned to a spec-level mirror.

use vstd::prelude::*;

verus! {

/// One real unit in the fixed-point format.
pub const FX_ONE: i64 = 65536;

/// One sixteenth of a unit: the grid that bounding-sphere radii are snapped to.
pub const FX_SIXTEENTH: i64 = 4096;

/// Division rounded toward zero (the rounding of Rust's `/` on integers),
/// for a positive divisor.
pub open spec fn div_trunc(p: int, q: int) -> int
    recommends
        q > 0,
{
    if p >= 0 {
        p / q
    } else {
        -((-p) / q)
    }
}

/// The product of two fixed-point values: the exact integer product carries
/// scale 2^32, so one factor of 2^16 is divided back out, rounded toward zero.
pub open spec fn fx_mul_spec(a: int, b: int) -> int {
    div_trunc(a * b, 65536)
}

/// The quotient of two fixed-point values, rounded toward zero.
pub open spec fn fx_div_spec(a: int, b: int) -> int
    recommends
        b != 0,
{
    if b > 0 {
        div_trunc(a * 65536, b)
    } else {
        div_trunc(-(a * 65536), -b)
    }
}

/// Division rounded toward zero, for any nonzero divisor.
pub open spec fn div_trunc_by(p: int, q: int) -> int
    recommends
        q != 0,
{
    if q > 0 {
        div_trunc(p, q)
    } else {
        div_trunc(-p, -q)
    }
}

/// Division of an `i128` by a positive divisor, rounded toward zero.
pub fn i128_div_trunc(p: i128, q: i128) -> (r: i128)
    requires
        q > 0,
        p > i128::MIN,
    ensures
        r == div_trunc(p as int, q as int),
{
    if p >= 0 {
        let m: u128 = (p as u128) / (q as u128);
        assert(m <= p);
        m as i128
    } else {
        let m: u128 = ((-p) as u128) / (q as u128);
        assert(m <= -p);
        -(m as i128)
    }
}

/// Division of an `i128` by any nonzero divisor, rounded toward zero.
pub fn i128_div_trunc_by(p: i128, q: i128) -> (r: i128)
    requires
        q != 0,
        p > i128::MIN,
        q > i128::MIN,
    ensures
        r == div_trunc_by(p as int, q as int),
{
    if q > 0 {
        i128_div_trunc(p, q)
    } else {
        i128_div_trunc(-p, -q)
    }
}

/// Multiplies two `i128` values under ghost magnitude bounds, so that call
/// sites with literal bounds discharge the overflow condition by constant
/// arithmetic alone.
pub(crate) fn i128_mul(a: i128, b: i128, Ghost(ma): Ghost<int>, Ghost(mb): Ghost<int>) -> (r: i128)
    requires
        0 <= ma,
        0 <= mb,
        -ma <= a <= ma,
        -mb <= b <= mb,
        ma * mb <= i128::MAX,
    ensures
        r == a * b,
        -(ma * mb) <= r <= ma * mb,
{
    proof {
        lemma_mul_le_abs(a as int, b as int, ma, mb);
    }
    a * b
}

/// Fixed-point multiplication.
pub fn fx_mul(a: i64, b: i64) -> (r: i64)
    requires
        i64::MIN <= fx_mul_spec(a as int, b as int) <= i64::MAX,
    ensures
        r == fx_mul_spec(a as int, b as int),
{
    let p: i128 = (a as i128) * (b as i128);
    let q = i128_div_trunc(p, 65536);
    q as i64
}

/// Fixed-point division.
pub fn fx_div(a: i64, b: i64) -> (r: i64)
    requires
        b != 0,
        i64::MIN <= fx_div_spec(a as int, b as int) <= i64::MAX,
    ensures
        r == fx_div_spec(a as int, b as int),
{
    let p: i128 = (a as i128) * 65536;
    if b > 0 {
        let q = i128_div_trunc(p, b as i128);
        q as i64
    } else {
        let q = i128_div_trunc(-p, -(b as i128));
        q as i64
    }
}

/// Scaling down by a positive divisor keeps a magnitude bound:
/// if `|p| <= m * q` then `|p / q| <= m` under truncating division.
pub proof fn lemma_div_trunc_le(p: int, q: int, m: int)
    requires
        q > 0,
        0 <= m,
        -(m * q) <= p <= m * q,
    ensures
        -m <= div_trunc(p, q) <= m,
{
    if p >= 0 {
        assert(0 <= p / q <= m) by (nonlinear_arith)
            requires
                q > 0,
                0 <= p <= m * q,
        ;
    } else {
        assert(0 <= (-p) / q <= m) by (nonlinear_arith)
            requires
                q > 0,
                0 < -p <= m * q,
        ;
    }
}

/// A product of bounded factors is bounded by the product of the bounds.
pub proof fn lemma_mul_le_abs(a: int, b: int, ma: int, mb: int)
    requires
        -ma <= a <= ma,
        -mb <= b <= mb,
        0 <= ma,
        0 <= mb,
    ensures
        -(ma * mb) <= a * b <= ma * mb,
{
    assert(-(ma * mb) <= a * b <= ma * mb) by (nonlinear_arith)
        requires
            -ma <= a <= ma,
            -mb <= b <= mb,
            0 <= ma,
            0 <= mb,
    ;
}

/// Squaring a truncated quotient never exceeds squaring the exact ratio:
/// `(p / q)^2 * q^2 <= p^2`.
pub proof fn lemma_div_trunc_sq(p: int, q: int)
    requires
        q > 0,
    ensures
        div_trunc(p, q) * div_trunc(p, q) * (q * q) <= p * p,
{
    let d = div_trunc(p, q);
    if p >= 0 {
        vstd::arithmetic::div_mod::lemma_fundamental_div_mod(p, q);
        vstd::arithmetic::div_mod::lemma_div_pos_is_pos(p, q);
        assert(d * q <= p) by (nonlinear_arith)
            requires
                p == q * d + p % q,
                0 <= p % q,
        ;
        assert(d * d * (q * q) <= p * p) by (nonlinear_arith)
            requires
                q > 0,
                0 <= d,
                d * q <= p,
        ;
    } else {
        vstd::arithmetic::div_mod::lemma_fundamental_div_mod(-p, q);
        vstd::arithmetic::div_mod::lemma_div_pos_is_pos(-p, q);
        let e = (-p) / q;
        assert(e * q <= -p) by (nonlinear_arith)
            requires
                -p == q * e + (-p) % q,
                0 <= (-p) % q,
        ;
        assert(d * d * (q * q) <= p * p) by (nonlinear_arith)
            requires
                q > 0,
                d == -e,
                0 <= e,
                e * q <= -p,
        ;
    }
}

/// Truncating division is monotone in the dividend.
pub proof fn lemma_div_trunc_mono(p1: int, p2: int, q: int)
    requires
        q > 0,
        p1 <= p2,
    ensures
        div_trunc(p1, q) <= div_trunc(p2, q),
{
    if p1 >= 0 {
        vstd::arithmetic::div_mod::lemma_div_is_ordered(p1, p2, q);
    } else if p2 < 0 {
        vstd::arithmetic::div_mod::lemma_div_is_ordered(-p2, -p1, q);
    } else {
        assert((-p1) / q >= 0) by (nonlinear_arith)
            requires
                q > 0,
                -p1 >= 0,
        ;
        assert(p2 / q >= 0) by (nonlinear_arith)
            requires
                q > 0,
                p2 >= 0,
        ;
    }
}

/// Truncating division sits on or one above the rounded-down quotient.
pub proof fn lemma_div_trunc_vs_floor(p: int, q: int)
    requires
        q > 0,
    ensures
        p / q <= div_trunc(p, q) <= p / q + 1,
{
    if p >= 0 {
    } else {
        vstd::arithmetic::div_mod::lemma_fundamental_div_mod(p, q);
        vstd::arithmetic::div_mod::lemma_fundamental_div_mod(-p, q);
        vstd::arithmetic::div_mod::lemma_mod_bound(p, q);
        vstd::arithmetic::div_mod::lemma_mod_bound(-p, q);
        let d = p / q;
        let e = (-p) / q;
        assert(q * (d + e) == -(p % q) - ((-p) % q)) by (nonlinear_arith)
            requires
                p == q * d + p % q,
                -p == q * e + (-p) % q,
        ;
        assert(d + e == 0 || d + e == -1) by (nonlinear_arith)
            requires
                q > 0,
                q * (d + e) == -(p % q) - ((-p) % q),
                0 <= p % q < q,
                0 <= (-p) % q < q,
        ;
    }
}

/// Dividends at most `k` whole divisors apart have quotients at most
/// `k + 1` apart under truncating division.
pub proof fn lemma_div_trunc_diff(a: int, b: int, q: int, k: int)
    requires
        q > 0,
        0 <= k,
        b - k * q <= a <= b + k * q,
    ensures
        div_trunc(b, q) - k - 1 <= div_trunc(a, q) <= div_trunc(b, q) + k + 1,
{
    lemma_div_trunc_vs_floor(a, q);
    lemma_div_trunc_vs_floor(b, q);
    vstd::arithmetic::div_mod::lemma_div_is_ordered(a, b + k * q, q);
    vstd::arithmetic::div_mod::lemma_div_is_ordered(b - k * q, a, q);
    vstd::arithmetic::div_mod::lemma_hoist_over_denominator(b, k, q as nat);
    vstd::arithmetic::div_mod::lemma_hoist_over_denominator(b, -k, q as nat);
    assert(k * q == q * k && (-k) * q == -(k * q)) by (nonlinear_arith);
}

/// For nonnegative dividends at least `q` apart, truncating division
/// increases strictly.
pub proof fn lemma_div_trunc_strict(p1: int, p2: int, q: int)
    requires
        q > 0,
        0 <= p1,
        p1 + q <= p2,
    ensures
        div_trunc(p1, q) < div_trunc(p2, q),
{
    assert(p1 / q < p2 / q) by (nonlinear_arith)
        requires
            q > 0,
            0 <= p1,
            p1 + q <= p2,
    {
        vstd::arithmetic::div_mod::lemma_fundamental_div_mod(p1, q);
        vstd::arithmetic::div_mod::lemma_fundamental_div_mod(p2, q);
    }
}

/// Dividing an exact multiple of the divisor recovers the factor.
pub proof fn lemma_div_trunc_mul_exact(x: int, q: int)
    requires
        q > 0,
    ensures
        div_trunc(q * x, q) == x,
{
    if q * x >= 0 {
        vstd::arithmetic::div_mod::lemma_div_multiples_vanish(x, q);
    } else {
        vstd::arithmetic::div_mod::lemma_div_multiples_vanish(-x, q);
        assert(-(q * x) == q * (-x)) by (nonlinear_arith);
    }
}

/// Adding `t` whole divisors to a nonnegative dividend adds `t` to the
/// quotient.
pub proof fn lemma_div_trunc_add_mul(p: int, q: int, t: int)
    requires
        q > 0,
        p >= 0,
        t >= 0,
    ensures
        div_trunc(p + t * q, q) == div_trunc(p, q) + t,
{
    vstd::arithmetic::div_mod::lemma_hoist_over_denominator(p, t, q as nat);
}

/// `r` is the integer square root of `n`, rounded down.
pub open spec fn is_sqrt_floor(n: int, r: int) -> bool {
    0 <= r && r * r <= n && n < (r + 1) * (r + 1)
}

/// The integer square root of `n`, rounded down.
pub open spec fn sqrt_floor(n: int) -> int {
    choose|r: int| is_sqrt_floor(n, r)
}

/// The integer square root of `n`, rounded up: the least `r` with `r * r >= n`.
pub open spec fn sqrt_ceil(n: int) -> int {
    if n <= 0 {
        0
    } else {
        sqrt_floor(n - 1) + 1
    }
}

/// Every nonnegative integer has a rounded-down square root.
pub proof fn lemma_sqrt_floor_exists(n: int)
    requires
        n >= 0,
    ensures
        is_sqrt_floor(n, sqrt_floor(n)),
    decreases n,
{
    if n == 0 {
        assert(is_sqrt_floor(0, 0));
    } else {
        lemma_sqrt_floor_exists(n - 1);
        let r = sqrt_floor(n - 1);
        if (r + 1) * (r + 1) <= n {
            assert(is_sqrt_floor(n, r + 1)) by (nonlinear_arith)
                requires
                    0 <= r,
                    r * r <= n - 1,
                    n - 1 < (r + 1) * (r + 1),
                    (r + 1) * (r + 1) <= n,
            ;
        } else {
            assert(is_sqrt_floor(n, r));
        }
    }
}

/// The rounded-down square root is unique.
pub proof fn lemma_sqrt_floor_unique(n: int, r: int)
    requires
        is_sqrt_floor(n, r),
    ensures
        r == sqrt_floor(n),
{
    lemma_sqrt_floor_exists(n);
    let s = sqrt_floor(n);
    assert(r == s) by (nonlinear_arith)
        requires
            0 <= r && r * r <= n && n < (r + 1) * (r + 1),
            0 <= s && s * s <= n && n < (s + 1) * (s + 1),
    ;
}

/// The integer square root of a `u128`, rounded down.
pub fn u128_sqrt_floor(n: u128) -> (r: u128)
    ensures
        r == sqrt_floor(n as int),
        is_sqrt_floor(n as int, r as int),
{
    let mut lo: u128 = 0;
    let mut hi: u128 = 0x1_0000_0000_0000_0000;
    assert((n as int) < (hi as int) * (hi as int)) by (nonlinear_arith)
        requires
            n <= u128::MAX,
            hi == 0x1_0000_0000_0000_0000u128,
    ;
    while lo + 1 < hi
        invariant
            lo < hi <= 0x1_0000_0000_0000_0000,
            (lo as int) * (lo as int) <= n as int,
            (n as int) < (hi as int) * (hi as int),
        decreases hi - lo,
    {
        let mid = lo + (hi - lo) / 2;
        assert(lo < mid < hi);
        assert((mid as int) * (mid as int) <= u128::MAX) by (nonlinear_arith)
            requires
                mid < 0x1_0000_0000_0000_0000u128,
        ;
        if mid * mid <= n {
            lo = mid;
        } else {
            hi = mid;
        }
    }
    proof {
        lemma_sqrt_floor_unique(n as int, lo as int);
    }
    lo
}

/// The integer square root of a `u128`, rounded up.
pub fn u128_sqrt_ceil(n: u128) -> (r: u128)
    ensures
        r == sqrt_ceil(n as int),
        n <= (r as int) * (r as int),
        n > 0 ==> (r as int - 1) * (r as int - 1) < n,
{
    if n == 0 {
        0
    } else {
        let s = u128_sqrt_floor(n - 1);
        assert(s < 0x1_0000_0000_0000_0000) by (nonlinear_arith)
            requires
                (s as int) * (s as int) <= n - 1,
                n <= u128::MAX,
        ;
        s + 1
    }
}

/// `r` is the integer cube root of `n`, rounded down.
pub open spec fn is_cbrt_floor(n: int, r: int) -> bool {
    0 <= r && r * r * r <= n && n < (r + 1) * (r + 1) * (r + 1)
}

/// The integer cube root of `n`, rounded down.
pub open spec fn cbrt_floor(n: int) -> int {
    choose|r: int| is_cbrt_floor(n, r)
}

/// Every nonnegative integer has a rounded-down cube root.
pub proof fn lemma_cbrt_floor_exists(n: int)
    requires
        n >= 0,
    ensures
        is_cbrt_floor(n, cbrt_floor(n)),
    decreases n,
{
    if n == 0 {
        assert(is_cbrt_floor(0, 0));
    } else {
        lemma_cbrt_floor_exists(n - 1);
        let r = cbrt_floor(n - 1);
        if (r + 1) * (r + 1) * (r + 1) <= n {
            assert(is_cbrt_floor(n, r + 1)) by (nonlinear_arith)
                requires
                    0 <= r,
                    r * r * r <= n - 1,
                    n - 1 < (r + 1) * (r + 1) * (r + 1),
                    (r + 1) * (r + 1) * (r + 1) <= n,
            ;
        } else {
            assert(is_cbrt_floor(n, r));
        }
    }
}

/// The rounded-down cube root is unique.
pub proof fn lemma_cbrt_floor_unique(n: int, r: int)
    requires
        is_cbrt_floor(n, r),
    ensures
        r == cbrt_floor(n),
{
    lemma_cbrt_floor_exists(n);
    let s = cbrt_floor(n);
    assert(r == s) by (nonlinear_arith)
        requires
            0 <= r && r * r * r <= n && n < (r + 1) * (r + 1) * (r + 1),
            0 <= s && s * s * s <= n && n < (s + 1) * (s + 1) * (s + 1),
    ;
}

/// The cube root of a perfect cube is exact.
pub proof fn lemma_cbrt_cube(x: int)
    requires
        0 <= x,
    ensures
        cbrt_floor(x * x * x) == x,
{
    assert(is_cbrt_floor(x * x * x, x)) by (nonlinear_arith)
        requires
            0 <= x,
    ;
    lemma_cbrt_floor_unique(x * x * x, x);
}

/// The integer cube root of a `u128` below 2^93, rounded down.
pub fn u128_cbrt_floor(n: u128) -> (r: u128)
    requires
        n < 0x2000_0000_0000_0000_0000_0000,
    ensures
        r == cbrt_floor(n as int),
        is_cbrt_floor(n as int, r as int),
{
    let mut lo: u128 = 0;
    let mut hi: u128 = 0x8000_0000;
    assert((n as int) < (hi as int) * (hi as int) * (hi as int)) by (nonlinear_arith)
        requires
            n < 0x2000_0000_0000_0000_0000_0000u128,
            hi == 0x8000_0000u128,
    ;
    while lo + 1 < hi
        invariant
            lo < hi <= 0x8000_0000,
            (lo as int) * (lo as int) * (lo as int) <= n as int,
            (n as int) < (hi as int) * (hi as int) * (hi as int),
        decreases hi - lo,
    {
        let mid = lo + (hi - lo) / 2;
        assert(lo < mid < hi);
        assert((mid as int) * (mid as int) <= u128::MAX && (mid as int) * (mid as int) * (mid as int)
            <= u128::MAX) by (nonlinear_arith)
            requires
                mid < 0x8000_0000u128,
        ;
        if mid * mid * mid <= n {
            lo = mid;
        } else {
            hi = mid;
        }
    }
    proof {
        lemma_cbrt_floor_unique(n as int, lo as int);
    }
    lo
}

/// A nonnegative radius snapped up to the next multiple of one sixteenth of a unit.
pub open spec fn quantize_up_spec(r: int) -> int {
    ((r + 4095) / 4096) * 4096
}

/// Rounds a nonnegative radius up to the sixteenth-of-a-unit grid.
pub fn quantize_up(r: i64) -> (q: i64)
    requires
        0 <= r,
        r + 4095 <= i64::MAX,
    ensures
        q == quantize_up_spec(r as int),
        r <= q <= r + 4095,
{
    let m: u64 = ((r as u64) + 4095) / 4096;
    proof {
        vstd::arithmetic::div_mod::lemma_fundamental_div_mod((r + 4095) as int, 4096);
    }
    (m * 4096) as i64
}

/// Snapping up never shrinks a nonnegative radius.
pub proof fn lemma_quantize_up_ge(r: int)
    requires
        0 <= r,
    ensures
        r <= quantize_up_spec(r),
{
    vstd::arithmetic::div_mod::lemma_fundamental_div_mod(r + 4095, 4096);
}

/// Snapping a radius to the sixteenth grid is idempotent: a value already on
/// the grid stays exactly where it is.
pub proof fn lemma_quantize_up_idempotent(r: int)
    requires
        0 <= r,
    ensures
        quantize_up_spec(quantize_up_spec(r)) == quantize_up_spec(r),
{
    let k = (r + 4095) / 4096;
    vstd::arithmetic::div_mod::lemma_fundamental_div_mod(r + 4095, 4096);
    assert((k * 4096 + 4095) / 4096 == k) by (nonlinear_arith)
        requires
            k >= 0,
    ;
}

} // verus!
