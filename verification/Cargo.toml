[package]
name = "apigen"
version = "0.1.0"
edition = "2021"
publish = false

[dependencies]
serde = { version = "*", features = ["derive"] }
serde_json = "*"
indexmap = { version = "*", features = ["serde"] }
