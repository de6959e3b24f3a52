[package]
name = "nori"
version = "0.1.0"
edition = "2021"
publish = false

[dependencies]
async-channel = "1"
image = { version = "0.24", default-features = false, features = ["png", "webp"] }
leptess = "0.14"
mongodb = "2"
once_cell = "1"
rayon = "1"
reqwest = { version = "0.11", default-features = false, features = ["rustls-tls"] }
serde = { version = "1", features = ["derive"] }
serenity = "0.11"
tokio = { version = "1", features = ["full"] }
