[package]
name = "arcade_control"
version = "0.1.0"
edition = "2021"
publish = false

[dependencies]
bevy = { version = "0.8", default-features = false, features = ["bevy_winit", "render", "x11"] }
bevy_hanabi = { version = "0.3", default-features = false, features = ["2d"] }
bevy-inspector-egui = { version = "0.12", default-features = false }
bevy_rapier2d = { version = "0.16", default-features = false, features = ["dim2", "debug-render"] }
