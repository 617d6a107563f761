//! Cascade partitioning and light-frustum fitting for cascaded shadow maps.
//!
//! The view frustum of a camera is partitioned into three depth ranges, and a
//! tight orthographic light-space projection is fitted around each range. All
//! geometry here is carried in a deterministic Q48.16 fixed-point format
//! (`i64` raw values denoting `raw / 65536` real units), so every stage of the
//! pipeline has an exact arithmetic meaning: splits, frustum unprojection,
//! bounding spheres, and the final per-cascade projection matrices.
//!
//! Rendering-side resources (depth textures, uniform buffers, bind state) are
//! the caller's concern; this crate produces the matrices and split depths
//! that those resources carry.

pub mod fixed;
pub mod vector;
pub mod matrix;
pub mod splits;
pub mod cascades;
pub mod primitives;
