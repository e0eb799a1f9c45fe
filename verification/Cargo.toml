[package]
name = "uzumaki"
version = "0.1.0"
edition = "2021"
publish = false

[dependencies]
serde = { version = "=1.0.229", features = ["derive"] }
serde_json = "=1.0.154"
winit = "=0.30.13"
kurbo = "=0.13.1"
