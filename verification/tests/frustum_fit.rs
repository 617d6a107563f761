//! End-to-end tests of the light-frustum fitter: a perspective camera is
//! built in floating point, converted onto the Q48.16 grid, and the fitted
//! cascade matrices are checked geometrically.

use cascaded_shadow_maps::cascades::fit_cascade;
use cascaded_shadow_maps::cascades::update_cascades;
use cascaded_shadow_maps::cascades::CameraParams;
use cascaded_shadow_maps::cascades::CsmError;
use cascaded_shadow_maps::matrix::m4_inverse;
use cascaded_shadow_maps::matrix::FxMat4;
use cascaded_shadow_maps::splits::calculate_split_cascades;
use cascaded_shadow_maps::vector::FxVec3;
use cascaded_shadow_maps::vector::FxVec4;

type M4 = [[f64; 4]; 4];

fn perspective(fovy: f64, aspect: f64, near: f64, far: f64) -> M4 {
    let f = 1.0 / (fovy / 2.0).tan();
    [
        [f / aspect, 0.0, 0.0, 0.0],
        [0.0, f, 0.0, 0.0],
        [0.0, 0.0, far / (near - far), near * far / (near - far)],
        [0.0, 0.0, -1.0, 0.0],
    ]
}

fn norm3(v: [f64; 3]) -> [f64; 3] {
    let l = (v[0] * v[0] + v[1] * v[1] + v[2] * v[2]).sqrt();
    [v[0] / l, v[1] / l, v[2] / l]
}

fn cross3(a: [f64; 3], b: [f64; 3]) -> [f64; 3] {
    [
        a[1] * b[2] - a[2] * b[1],
        a[2] * b[0] - a[0] * b[2],
        a[0] * b[1] - a[1] * b[0],
    ]
}

fn dot3(a: [f64; 3], b: [f64; 3]) -> f64 {
    a[0] * b[0] + a[1] * b[1] + a[2] * b[2]
}

fn look_at(eye: [f64; 3], at: [f64; 3], up: [f64; 3]) -> M4 {
    let f = norm3([at[0] - eye[0], at[1] - eye[1], at[2] - eye[2]]);
    let s = norm3(cross3(f, up));
    let u = cross3(s, f);
    [
        [s[0], s[1], s[2], -dot3(s, eye)],
        [u[0], u[1], u[2], -dot3(u, eye)],
        [-f[0], -f[1], -f[2], dot3(f, eye)],
        [0.0, 0.0, 0.0, 1.0],
    ]
}

fn mat_mul(a: &M4, b: &M4) -> M4 {
    let mut r = [[0.0f64; 4]; 4];
    for i in 0..4 {
        for j in 0..4 {
            for (k, bk) in b.iter().enumerate() {
                r[i][j] += a[i][k] * bk[j];
            }
        }
    }
    r
}

fn xform(m: &M4, v: [f64; 4]) -> [f64; 4] {
    let mut r = [0.0f64; 4];
    for i in 0..4 {
        for k in 0..4 {
            r[i] += m[i][k] * v[k];
        }
    }
    r
}

fn to_fx(m: &M4) -> FxMat4 {
    let row = |r: [f64; 4]| FxVec4 {
        x: (r[0] * 65536.0).round() as i64,
        y: (r[1] * 65536.0).round() as i64,
        z: (r[2] * 65536.0).round() as i64,
        w: (r[3] * 65536.0).round() as i64,
    };
    FxMat4 { r0: row(m[0]), r1: row(m[1]), r2: row(m[2]), r3: row(m[3]) }
}

fn fx_to_f64(m: &FxMat4) -> M4 {
    let row = |r: FxVec4| {
        [
            r.x as f64 / 65536.0,
            r.y as f64 / 65536.0,
            r.z as f64 / 65536.0,
            r.w as f64 / 65536.0,
        ]
    };
    [row(m.r0), row(m.r1), row(m.r2), row(m.r3)]
}

/// A camera orbiting the origin, in the scale the renderer uses.
fn test_camera(aspect: f64) -> CameraParams {
    let view = look_at([4.0, 3.0, 8.0], [0.0, 0.0, 0.0], [0.0, 1.0, 0.0]);
    let persp = perspective(1.0, aspect, 0.1, 100.0);
    CameraParams {
        projection_view: to_fx(&mat_mul(&persp, &view)),
        near_clip: 6554,
        far_clip: 6553600,
    }
}

/// A roughly unit light direction on the fixed-point grid.
fn test_light() -> FxVec3 {
    let l = norm3([0.3, 0.8, 0.5]);
    FxVec3 {
        x: (l[0] * 65536.0).round() as i64,
        y: (l[1] * 65536.0).round() as i64,
        z: (l[2] * 65536.0).round() as i64,
    }
}

/// A full update succeeds on a healthy camera; the split depths are exactly
/// the negated view-space depths of the first two split fractions, and each
/// matrix keeps an affine last row.
#[test]
fn update_happy_path() {
    let camera = test_camera(1.6);
    let splits = calculate_split_cascades(6554, 6553600, 32768);
    assert_eq!(splits, [0, 11217, 25092, 65536]);
    let u = update_cascades(&camera, splits, test_light()).unwrap();
    assert_eq!(u.split_depths, [-1127132, -2513244]);
    for m in &u.matrices {
        assert_eq!((m.r3.x, m.r3.y, m.r3.z, m.r3.w), (0, 0, 0, 65536));
    }
}

/// The single-cascade entry point agrees with the full update.
#[test]
fn fit_matches_update() {
    let camera = test_camera(1.6);
    let splits = calculate_split_cascades(6554, 6553600, 32768);
    let u = update_cascades(&camera, splits, test_light()).unwrap();
    let (m0, d0) = fit_cascade(&camera, splits[0], splits[1], test_light()).unwrap();
    assert_eq!(m0, u.matrices[0]);
    assert_eq!(d0, u.split_depths[0]);
    let (m2, _) = fit_cascade(&camera, splits[2], splits[3], test_light()).unwrap();
    assert_eq!(m2, u.matrices[2]);
}

/// The fixed-point inverse really inverts: multiplying it back onto the
/// camera matrix gives the identity up to grid rounding.
#[test]
fn inverse_times_matrix_is_identity() {
    let camera = test_camera(1.6);
    let inv = m4_inverse(&camera.projection_view).unwrap();
    let product = mat_mul(&fx_to_f64(&inv), &fx_to_f64(&camera.projection_view));
    for (i, row) in product.iter().enumerate() {
        for (j, v) in row.iter().enumerate() {
            let expected = if i == j { 1.0 } else { 0.0 };
            assert!((v - expected).abs() < 1e-3, "entry ({i}, {j}) = {v}");
        }
    }
}

/// Containment: transforming all eight corners of each cascade's frustum
/// slice by the fitted light projection lands inside normalized device
/// bounds (x and y within one either way, depth within zero and one), up to
/// fixed-point rounding.
#[test]
fn fitted_matrix_contains_slice() {
    let camera = test_camera(1.6);
    let splits = calculate_split_cascades(6554, 6553600, 32768);
    let u = update_cascades(&camera, splits, test_light()).unwrap();

    // The slice corners are defined over the fixed-point inverse, so use it.
    let inv = fx_to_f64(&m4_inverse(&camera.projection_view).unwrap());
    let mut world = [[0.0f64; 3]; 8];
    for (i, w) in world.iter_mut().enumerate() {
        let x = if i % 4 == 0 || i % 4 == 3 { -1.0 } else { 1.0 };
        let y = if i % 4 == 2 || i % 4 == 3 { -1.0 } else { 1.0 };
        let z = if i < 4 { -1.0 } else { 1.0 };
        let h = xform(&inv, [x, y, z, 1.0]);
        *w = [h[0] / h[3], h[1] / h[3], h[2] / h[3]];
    }

    for c in 0..3 {
        let last = splits[c] as f64 / 65536.0;
        let split = splits[c + 1] as f64 / 65536.0;
        let m = fx_to_f64(&u.matrices[c]);
        for i in 0..8 {
            let (near, far) = (world[i % 4], world[i % 4 + 4]);
            let t = if i < 4 { last } else { split };
            let p = [
                near[0] + (far[0] - near[0]) * t,
                near[1] + (far[1] - near[1]) * t,
                near[2] + (far[2] - near[2]) * t,
            ];
            let q = xform(&m, [p[0], p[1], p[2], 1.0]);
            assert!((q[3] - 1.0).abs() < 1e-3, "w stays one");
            assert!(q[0].abs() <= 1.02, "cascade {c} corner {i}: x = {}", q[0]);
            assert!(q[1].abs() <= 1.02, "cascade {c} corner {i}: y = {}", q[1]);
            assert!((-0.02..=1.02).contains(&q[2]), "cascade {c} corner {i}: z = {}", q[2]);
        }
    }
}

/// Resize stability: nudging only the aspect ratio moves the fitted extents
/// smoothly. The first row of each matrix scales by one over the sphere
/// radius, so its length must not jump.
#[test]
fn resize_changes_extents_smoothly() {
    let splits = calculate_split_cascades(6554, 6553600, 32768);
    let a = update_cascades(&test_camera(1.6), splits, test_light()).unwrap();
    let b = update_cascades(&test_camera(1.62), splits, test_light()).unwrap();
    for c in 0..3 {
        let scale = |m: &FxMat4| {
            let r = [
                m.r0.x as f64 / 65536.0,
                m.r0.y as f64 / 65536.0,
                m.r0.z as f64 / 65536.0,
            ];
            (r[0] * r[0] + r[1] * r[1] + r[2] * r[2]).sqrt()
        };
        let sa = scale(&a.matrices[c]);
        let sb = scale(&b.matrices[c]);
        assert!((sa - sb).abs() / sa < 0.03, "cascade {c}: {sa} vs {sb}");
    }
}

/// A light pointing along the world up axis has no valid side vector and is
/// reported as degenerate rather than producing a broken basis.
#[test]
fn vertical_light_rejected() {
    let camera = test_camera(1.6);
    let up_light = FxVec3 { x: 0, y: 65536, z: 0 };
    let r = fit_cascade(&camera, 0, 21845, up_light);
    assert_eq!(r, Err(CsmError::DegenerateLight));
}

/// A zero light direction leaves the eye on the centroid and is rejected
/// the same way.
#[test]
fn zero_light_rejected() {
    let camera = test_camera(1.6);
    let zero = FxVec3 { x: 0, y: 0, z: 0 };
    let r = fit_cascade(&camera, 0, 21845, zero);
    assert_eq!(r, Err(CsmError::DegenerateLight));
}

/// An empty or inverted clip range is rejected before any geometry runs.
#[test]
fn invalid_clip_range_rejected() {
    let mut camera = test_camera(1.6);
    camera.near_clip = 0;
    let r = update_cascades(&camera, [0, 11217, 25092, 65536], test_light());
    assert_eq!(r, Err(CsmError::InvalidClipRange));

    let mut camera = test_camera(1.6);
    camera.far_clip = camera.near_clip;
    let r = update_cascades(&camera, [0, 11217, 25092, 65536], test_light());
    assert_eq!(r, Err(CsmError::InvalidClipRange));
}

/// A singular camera matrix cannot be unprojected and is rejected.
#[test]
fn singular_camera_rejected() {
    let zero_row = FxVec4 { x: 0, y: 0, z: 0, w: 0 };
    let camera = CameraParams {
        projection_view: FxMat4 { r0: zero_row, r1: zero_row, r2: zero_row, r3: zero_row },
        near_clip: 6554,
        far_clip: 6553600,
    };
    let r = update_cascades(&camera, [0, 11217, 25092, 65536], test_light());
    assert_eq!(r, Err(CsmError::DegenerateCamera));
}
