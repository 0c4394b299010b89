[package]
name = "dynachem"
version = "0.1.0"
edition = "2021"
publish = false

[dependencies]
bevy = { version = "0.15", default-features = false, features = ["bevy_color", "bevy_core_pipeline", "bevy_render", "bevy_sprite", "bevy_window", "bevy_winit", "x11"] }
glam = "0.29"

[dev-dependencies]
approx = "0.5"
