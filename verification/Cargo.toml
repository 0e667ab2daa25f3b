[package]
name = "init"
version = "0.1.0"
edition = "2021"
publish = false

[dependencies]
clap = "=2.34.0"
include_dir = "=0.6.2"
serde = { version = "=1.0.229", features = ["derive"] }
serde_json = "=1.0.154"

[dev-dependencies]
fancy-regex = "*"
