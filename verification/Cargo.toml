[package]
name = "batalla_naval"
version = "0.1.0"
edition = "2021"
publish = false

[dependencies]
ndarray = "0.15.6"
rand = "0.8.5"
serde = { version = "1", features = ["derive"] }
serde_json = "1"
