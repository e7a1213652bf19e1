[package]
name = "yobiko"
version = "0.1.0"
edition = "2021"
publish = false

[dependencies]
toml = "*"
serde_json = "*"
ignore = "*"
ratatui = "*"
crossterm = "*"
color-eyre = "*"
