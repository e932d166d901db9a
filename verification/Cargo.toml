[package]
name = "freeform"
version = "0.1.0"
edition = "2021"
publish = false

[dependencies]
serde_json = "=1.0.151"
ron = "=0.12.2"
toml = "=1.1.7"
