[package]
name = "space_battle"
version = "0.1.0"
edition = "2021"
publish = false

[dependencies]
rand = "=0.8.8"
kd-tree = "=0.6.2"
glam = "=0.29.3"
bevy = { version = "=0.15.3", default-features = false, features = ["animation", "bevy_asset", "bevy_color", "bevy_core_pipeline", "bevy_pbr", "bevy_render", "bevy_window", "multi_threaded", "tonemapping_luts"] }
avian3d = { version = "=0.2.1", default-features = false, features = ["3d", "f32", "parry-f32"] }
color-backtrace = "=0.6.1"
