[package]
name = "alchimera"
version = "0.1.0"
edition = "2021"
publish = false

[dependencies]
serde = { version = "1", features = ["derive"] }
bevy = { version = "0.15", default-features = false, features = ["bevy_state"] }
