//! Tests for the cascade split calculator and the radius quantization grid.
//!
//! Raw values are Q48.16 fixed point: 65536 is one unit, so a clip plane at
//! 0.1 units is 6554 raw and a fraction of one is 65536 raw.

use cascaded_shadow_maps::fixed::quantize_up;
use cascaded_shadow_maps::fixed::FX_SIXTEENTH;
use cascaded_shadow_maps::splits::calculate_split_cascades;
use cascaded_shadow_maps::splits::resolve_splits;
use cascaded_shadow_maps::splits::SplitConfig;

/// near = 0.1, far = 100, lambda = 0.5: the regression fixture. The exact
/// integer outputs were derived once from the fixed-point algorithm; as real
/// fractions they are 0.17116, 0.38287 and 1, matching the float formula
/// `lambda * (near * (far / near)^p - uniform) + uniform` to within one part
/// in ten thousand.
#[test]
fn splits_concrete_scenario() {
    let near = 6554i64;
    let far = 6553600i64;
    let lambda = 32768i64;
    let s = calculate_split_cascades(near, far, lambda);
    assert_eq!(s, [0, 11217, 25092, 65536]);

    // Cross-check against the floating-point form of the same scheme.
    let nf = near as f64 / 65536.0;
    let ff = far as f64 / 65536.0;
    for (k, raw) in [(1usize, s[1]), (2, s[2]), (3, s[3])] {
        let p = k as f64 / 3.0;
        let log = nf * (ff / nf).powf(p);
        let uniform = nf + (ff - nf) * p;
        let d = 0.5 * (log - uniform) + uniform;
        let expected = (d - nf) / (ff - nf);
        let got = raw as f64 / 65536.0;
        assert!((got - expected).abs() < 1e-4, "k={k}: {got} vs {expected}");
    }
}

/// Splits start at zero, end exactly at one, and increase strictly, for a
/// spread of clip ranges and blend factors.
#[test]
fn splits_monotonic_samples() {
    let cases = [
        (6554i64, 6553600i64, 0i64),
        (6554, 6553600, 32768),
        (6554, 6553600, 65536),
        (65536, 131072, 20000),
        (65536, 655360000, 65536),
        (32768, 52428800, 50000),
    ];
    for (near, far, lambda) in cases {
        let s = calculate_split_cascades(near, far, lambda);
        assert_eq!(s[0], 0, "near={near} far={far} lambda={lambda}");
        assert_eq!(s[3], 65536, "near={near} far={far} lambda={lambda}");
        assert!(s[0] < s[1] && s[1] < s[2] && s[2] < s[3],
            "not strictly increasing: {s:?} for near={near} far={far} lambda={lambda}");
    }
}

/// lambda = 0 reproduces the pure uniform partition: thirds of the clip
/// range (rounded on the fixed-point grid).
#[test]
fn lambda_zero_is_uniform() {
    let s = calculate_split_cascades(6554, 6553600, 0);
    assert_eq!(s, [0, 21845, 43690, 65536]);
    // The uniform fractions are k/3 of the clip range.
    for k in 1..=3usize {
        let expected = k as f64 / 3.0;
        let got = s[k] as f64 / 65536.0;
        assert!((got - expected).abs() < 1e-4, "k={k}: {got} vs {expected}");
    }
}

/// lambda = 1 reproduces the pure logarithmic partition
/// `near * (far / near)^(k/3)`.
#[test]
fn lambda_one_is_logarithmic() {
    let near = 6554i64;
    let far = 6553600i64;
    let s = calculate_split_cascades(near, far, 65536);
    assert_eq!(s, [0, 590, 6494, 65536]);
    let nf = near as f64 / 65536.0;
    let ff = far as f64 / 65536.0;
    for k in 1..=3usize {
        let log = nf * (ff / nf).powf(k as f64 / 3.0);
        let expected = (log - nf) / (ff - nf);
        let got = s[k] as f64 / 65536.0;
        assert!((got - expected).abs() < 1e-4, "k={k}: {got} vs {expected}");
    }
}

/// The lambda-driven configuration matches the calculator, and the manual
/// configuration passes its fractions through untouched.
#[test]
fn resolve_splits_both_sources() {
    let derived = resolve_splits(&SplitConfig::Lambda(32768), 6554, 6553600);
    assert_eq!(derived, calculate_split_cascades(6554, 6553600, 32768));

    let manual = [0i64, 10000, 30000, 65536];
    let kept = resolve_splits(&SplitConfig::Manual(manual), 6554, 6553600);
    assert_eq!(kept, manual);
}

/// Snapping a radius up to the sixteenth-of-a-unit grid is idempotent.
#[test]
fn radius_quantization_idempotent() {
    for r in [0i64, 1, 4095, 4096, 4097, 65536, 65537, 123456789, 0x8_0000_0000] {
        let once = quantize_up(r);
        let twice = quantize_up(once);
        assert_eq!(once, twice, "r={r}");
        assert!(once >= r);
        assert_eq!(once % FX_SIXTEENTH, 0);
    }
}
