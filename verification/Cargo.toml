[package]
name = "motarem"
version = "0.1.0"
edition = "2021"
publish = false

[dependencies]
serde_json = "*"
moka = { version = "*", features = ["sync"] }
chrono = "*"
tokio = { version = "*", features = ["full"] }
anyhow = "*"
