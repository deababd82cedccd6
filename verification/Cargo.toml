[package]
name = "sv2chisel"
version = "0.1.0"
edition = "2021"
publish = false

[dependencies]
clap = { version = "4", features = ["derive"] }
regex = "1"
rhai = "1"
serde = { version = "1", features = ["derive"] }
serde_json = "1"
sv-parser = "0.13"
