[package]
name = "seq_analyser"
version = "0.1.0"
edition = "2021"
publish = false

[dependencies]
bio = "*"
flate2 = "1"
serde = { version = "1", features = ["derive"] }
serde_json = "1"
