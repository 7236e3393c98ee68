[package]
name = "premortem"
version = "0.1.0"
edition = "2021"
publish = false

[dependencies]
toml_edit = "=0.22.27"
serde = { version = "=1.0.229", features = ["derive"] }
serde_json = "=1.0.154"
serde_yaml = "=0.9.34"
regex = "=1.13.1"
notify = "=8.2.1"
