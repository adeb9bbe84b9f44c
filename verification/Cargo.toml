[package]
name = "stm"
version = "1.0.0"
edition = "2021"
publish = false

[dependencies]
clap = "2"
dirs = "*"
serde = { version = "1", features = ["derive"] }
serde_json = "1"
