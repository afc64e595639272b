[package]
name = "torc_spec"
version = "0.1.0"
edition = "2021"
publish = false

[dependencies]
regex = "=1.13.1"
serde = { version = "=1.0.229", features = ["derive"] }
serde_json = "=1.0.154"
serde_yaml = "=0.9.34"
json5 = "=0.4.1"
anyhow = "=1.0.104"
log = "=0.4.35"
kdl = "=6.7.1"
chrono = "=0.4.45"
tempfile = "3"
