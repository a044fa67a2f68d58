[package]
name = "toppa_drill"
version = "0.1.0"
edition = "2021"
publish = false

[dependencies]
rand = "0.6"
ron = "0.4"
serde = { version = "1", features = ["derive"] }
serde_derive = "1"
log = "0.4"
pretty_env_logger = "0.3"
