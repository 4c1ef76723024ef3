[package]
name = "chapaty_garden"
version = "0.1.0"
edition = "2021"
publish = false

[dependencies]
chrono = "=0.4.45"
chrono-tz = "=0.10.4"
anyhow = "=1.0.104"
serde = { version = "=1.0.229", features = ["derive"] }
serde_with = "=3.24.0"
