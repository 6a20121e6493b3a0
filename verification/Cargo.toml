[package]
name = "alltalk_api"
version = "0.1.0"
edition = "2021"
publish = false

[dependencies]
reqwest = { version = "0.12", default-features = false, features = ["json"] }
rodio = { version = "0.20", default-features = false }
serde = { version = "1", features = ["derive"] }
stream-download = "*"
