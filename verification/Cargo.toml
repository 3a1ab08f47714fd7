[package]
name = "jsrmx"
version = "0.1.0"
edition = "2021"
publish = false

[dependencies]
clap = { version = "4", features = ["derive"] }
env_logger = "*"
eyre = "*"
json-patch = "*"
log = "*"
rayon = "*"
regex = "1"
serde_json = { version = "1", features = ["preserve_order"] }
