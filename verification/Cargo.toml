[package]
name = "rsbar"
version = "0.1.0"
edition = "2021"
publish = false

[dependencies]
brightness = "*"
chrono = "0.4"
colog = "*"
futures = "0.3"
log = "0.4"
regex = "1"
serde = { version = "1", features = ["derive"] }
serde_json = "1"
tokio = { version = "1", features = ["full"] }
