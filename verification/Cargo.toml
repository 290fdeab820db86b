[package]
name = "kandume"
version = "0.1.0"
edition = "2021"
publish = false

[dependencies]
anyhow = "1"
crossterm = "0.28"
dirs = "6"
portable-pty = "0.9"
ratatui = "0.29"
serde = { version = "1", features = ["derive"] }
toml = "0.8"
vt100 = "0.15"
