[package]
name = "zo_sim"
version = "0.1.0"
edition = "2021"
publish = false

[dependencies]
rand = "0.9"
serde = { version = "1", features = ["derive"] }
bevy = { version = "0.15", default-features = false, features = ["bevy_asset", "bevy_core_pipeline", "bevy_render", "bevy_sprite", "bevy_window", "multi_threaded"] }
avian2d = { version = "0.2", default-features = false, features = ["2d", "f32", "parry-f32"] }
