[package]
name = "cascaded_shadow_maps"
version = "0.1.0"
edition = "2021"
publish = false

[dependencies]
wgpu = "*"
pollster = "*"
bytemuck = "*"
