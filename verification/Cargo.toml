[package]
name = "structgen"
version = "0.1.0"
edition = "2021"
publish = false

[dependencies]
serde_json = "1"
serde_yaml = "0.9"
toml = "*"
syn = "2"
quote = "1"
proc-macro2 = "1"
