[package]
name = "strapped_core"
version = "0.1.0"
edition = "2021"
publish = false

[dependencies]
sha2 = "*"
fuel-tx = "*"
serde = { version = "*", features = ["derive"] }
serde_json = "*"
anyhow = "*"
hex = "*"
chrono = "*"
