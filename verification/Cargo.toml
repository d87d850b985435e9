[package]
name = "hivesim"
version = "0.1.0"
edition = "2021"
publish = false

[dependencies]
bevy = { version = "=0.6.1", default-features = false, features = ["render", "bevy_winit", "png", "x11"] }
bevy_ecs_tilemap = "=0.5.0"
bevy_prototype_debug_lines = "=0.6.1"
bevy_console = "=0.3.0"
nanoserde = "=0.1.37"
rand = { version = "=0.8.8", features = ["small_rng"] }
