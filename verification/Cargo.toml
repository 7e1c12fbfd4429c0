[package]
name = "cia"
version = "0.1.0"
edition = "2021"
publish = false

[dependencies]
anyhow = "1"
clap = { version = "4", features = ["derive"] }
crossterm = "0.28"
ratatui = "0.29"
serde = { version = "1", features = ["derive"] }
serde_json = "1"
shell-escape = "0.1"
time = { version = "0.3", features = ["parsing"] }
toml = "0.8"
