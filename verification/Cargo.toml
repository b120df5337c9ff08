[package]
name = "pong"
version = "0.1.0"
edition = "2021"
publish = false

[dependencies]
bevy = { version = "=0.5.0", default-features = false, features = ["render", "bevy_winit", "bevy_wgpu", "x11"] }
bevy_input = "=0.5.0"
darling = "=0.10.2"
