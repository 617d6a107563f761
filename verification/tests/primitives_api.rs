//! Tests for the renderer-wide value types and dispatch sizing.

use cascaded_shadow_maps::primitives::dispatch_count;
use cascaded_shadow_maps::primitives::enumerate;
use cascaded_shadow_maps::primitives::Mode;
use cascaded_shadow_maps::primitives::NodeAndParent;
use cascaded_shadow_maps::primitives::TonemapperMode;

#[test]
fn mode_iter_pairs_each_mode_with_its_index() {
    let modes = Mode::iter();
    assert_eq!(modes.len(), 5);
    assert_eq!(modes[0], (Mode::Full, 0));
    assert_eq!(modes[1], (Mode::Normals, 1));
    assert_eq!(modes[2], (Mode::Noise, 2));
    assert_eq!(modes[3], (Mode::HueNoise, 3));
    assert_eq!(modes[4], (Mode::ShadowCascade, 4));
}

#[test]
fn tonemapper_iter_lists_all_modes() {
    let modes = TonemapperMode::iter();
    assert_eq!(
        modes,
        vec![
            TonemapperMode::On,
            TonemapperMode::NoCrosstalk,
            TonemapperMode::Off,
            TonemapperMode::WasmGammaCorrect,
        ]
    );
}

#[test]
fn enumerate_pairs_values_with_indices() {
    let pairs = enumerate(&[10u32, 20, 30]);
    assert_eq!(pairs, vec![(10, 0), (20, 1), (30, 2)]);
    let empty: Vec<(u8, u32)> = enumerate(&[]);
    assert!(empty.is_empty());
}

#[test]
fn dispatch_count_rounds_up() {
    assert_eq!(dispatch_count(0, 4), 0);
    assert_eq!(dispatch_count(1, 4), 1);
    assert_eq!(dispatch_count(4, 4), 1);
    assert_eq!(dispatch_count(5, 4), 2);
    assert_eq!(dispatch_count(2000, 64), 32);
    assert_eq!(dispatch_count(u32::MAX, 1), u32::MAX);
}

#[test]
fn node_and_parent_holds_indices() {
    let root = NodeAndParent { node_index: 0, parent_index: -1 };
    let child = NodeAndParent { node_index: 3, parent_index: 0 };
    assert_eq!(root.parent_index, -1);
    assert_eq!(child.node_index, 3);
    assert_ne!(root, child);
}
