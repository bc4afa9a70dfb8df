[package]
name = "zeroengine"
version = "0.1.0"
edition = "2021"
publish = false

[dependencies]
serde = { version = "=1.0.229", features = ["derive"] }
serde_json = "=1.0.154"
toml = "=1.1.8"
glam = "=0.34.2"
image = { version = "=0.25.10", default-features = false, features = ["png"] }
anyhow = "=1.0.104"
notify = "8"
