[package]
name = "shell_settings"
version = "0.1.0"
edition = "2021"
publish = false

[dependencies]
dirs = "*"
notify-rust = "*"

[dev-dependencies]
serde_json = "*"
