[package]
name = "mditems"
version = "0.1.0"
edition = "2021"
publish = false

[dependencies]
core-foundation = "*"
serde = { version = "*", features = ["derive"] }
serde_json = "*"
