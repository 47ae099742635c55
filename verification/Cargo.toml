[package]
name = "spinal-tap"
version = "0.1.0"
edition = "2021"
publish = false

[dependencies]
compio = { version = "=0.19.2", features = ["net"] }
crossterm = "=0.29.0"
ratatui = "=0.30.2"
serde = { version = "=1.0.229", features = ["derive"] }
toml = "=1.1.8"
