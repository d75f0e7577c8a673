[package]
name = "partneri"
version = "0.1.0"
edition = "2021"
publish = false

[dependencies]
calamine = "*"
chrono = "*"
serde = { version = "*", features = ["derive"] }
serde_json = "*"
