[package]
name = "nursearch"
version = "0.1.0"
edition = "2021"
publish = false

[dependencies]
serde = { version = "1", features = ["derive"] }
serde_json = "1"
toml = "*"
rusqlite = { version = "*", features = ["bundled"] }
ciborium = "0.2"
log = "0.4"
env_logger = "*"
gtk4 = "*"
gtk4-layer-shell = "*"
shell-words = "1"
tempfile = "3"
