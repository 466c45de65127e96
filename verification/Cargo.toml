[package]
name = "sich_engine"
version = "0.1.0"
edition = "2021"
publish = false

[dependencies]
bevy = { version = "=0.17.3", default-features = false, features = ["std", "bevy_asset", "bevy_pbr", "bevy_render", "bevy_core_pipeline", "bevy_camera", "bevy_image", "bevy_mesh", "bevy_window"] }
macroquad = "=0.4.16"
thiserror = "=2.0.21"
