[package]
name = "bluth"
version = "0.1.0"
edition = "2021"
publish = false

[dependencies]
axum = "0.8"
heck = "0.5"
serde = { version = "1", features = ["derive"] }
serde_json = "1"
urlencoding = "2"
