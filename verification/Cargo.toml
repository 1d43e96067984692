[package]
name = "drone_recon"
version = "0.1.0"
edition = "2021"
publish = false

[dependencies]
bevy = { version = "0.15", default-features = false, features = ["bevy_sprite", "bevy_core_pipeline", "bevy_render", "bevy_asset", "bevy_state", "bevy_winit", "x11", "png"] }
noise = "0.9"
rand = "0.8"
