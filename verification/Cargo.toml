[package]
name = "cwt"
version = "0.1.0"
edition = "2021"
publish = false

[dependencies]
anyhow = "=1.0.104"
chrono = { version = "=0.4.45", features = ["serde"] }
crossterm = "=0.27.0"
portable-pty = "=0.8.1"
rand = "=0.8.8"
ratatui = "=0.26.3"
serde = { version = "=1.0.229", features = ["derive"] }
serde_json = "=1.0.154"
vt100 = "0.18"
