[package]
name = "ultra-media-remote"
version = "0.2.3"
edition = "2021"
publish = false

[dependencies]
serde = { version = "1", features = ["derive"] }
serde_json = "1"
