[package]
name = "success_core"
version = "0.1.0"
edition = "2021"
publish = false

[dependencies]
chrono = "*"
anyhow = "*"
clap = { version = "*", features = ["derive"] }
crossterm = "*"
libc = "*"
ratatui = "*"
serde = { version = "*", features = ["derive"] }
serde_json = "*"
