[package]
name = "platformer_controller"
version = "0.1.0"
edition = "2021"
publish = false

[dependencies]
bevy = { version = "0.9", default-features = false }
bevy_rapier2d = { version = "0.20", default-features = false, features = ["dim2", "async-collider"] }
