[package]
name = "transcript_workspace"
version = "0.1.0"
edition = "2021"
publish = false

[dependencies]
ratatui = "=0.29.0"
crossterm = "=0.28.1"
sha2 = "=0.10.9"
anyhow = "=1.0.104"
image = { version = "=0.25.10", default-features = false, features = ["png", "jpeg"] }
tempfile = "=3.27.0"
