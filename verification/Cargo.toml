[package]
name = "open_eyes"
version = "0.1.0"
edition = "2021"
publish = false

[dependencies]
hostname = "*"
image = "*"
nalgebra = "*"
serde = { version = "1", features = ["derive"] }
serde_json = "1"
tokio = { version = "1", features = ["full"] }
tracing = "*"
tracing-subscriber = "*"
jni = "*"
opencv = "*"
