[package]
name = "ruled_labels"
version = "0.1.0"
edition = "2021"
publish = false

[dependencies]
anyhow = "*"
clap = { version = "*", features = ["derive"] }
env_logger = "*"
log = "*"
regex = "*"
semver = { version = "*", features = ["serde"] }
serde = { version = "*", features = ["derive"] }
serde_yaml = "*"
termion = "*"
