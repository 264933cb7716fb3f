[package]
name = "fighting_game"
version = "0.1.0"
edition = "2021"
publish = false

[dependencies]
base64 = "0.21"
image = { version = "0.24", default-features = false, features = ["png"] }
serde = { version = "1", features = ["derive"] }
serde_json = "1"
