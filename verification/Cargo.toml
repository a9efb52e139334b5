[package]
name = "lifeview"
version = "0.1.0"
edition = "2021"
publish = false

[dependencies]
bevy = { version = "=0.16.1", default-features = false, features = ["std", "bevy_window", "bevy_winit", "bevy_render", "bevy_core_pipeline", "bevy_asset", "bevy_log", "x11", "multi_threaded"] }
bevy_embedded_assets = "=0.13.0"
rand = "0.9"
rayon = "1"
serde = { version = "1", features = ["derive"] }
serde_json = "1"
