[package]
name = "rust_cuts"
version = "0.1.0"
edition = "2021"
publish = false

[dependencies]
clap = { version = "*", features = ["derive"] }
crossterm = "*"
env_logger = "*"
fuzzy-matcher = "*"
indexmap = "*"
itertools = "*"
leon = "*"
log = "*"
serde = { version = "*", features = ["derive"] }
serde_yaml = "*"
shellexpand = "*"
