[package]
name = "playscript"
version = "0.1.0"
edition = "2021"
publish = false

[dependencies]
dataview = "=1.1.0"
pelite = "=0.10.0"
serde = { version = "=1.0.229", features = ["derive"] }
