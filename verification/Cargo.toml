[package]
name = "roothold"
version = "0.1.0"
edition = "2021"
publish = false

[dependencies]
bevy = { version = "=0.18.1", default-features = false, features = ["bevy_window", "bevy_render", "bevy_sprite", "bevy_text", "bevy_ui", "bevy_core_pipeline"] }
noise = "=0.9.0"
rand = "=0.9.5"
