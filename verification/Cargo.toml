[package]
name = "splits_core"
version = "0.1.0"
edition = "2021"
publish = false

[dependencies]
anyhow = "1"
clap = { version = "4", features = ["derive"] }
crossterm = "0.27"
itertools = "0.11"
ratatui = "0.23"
serde = { version = "1", features = ["derive"] }
serde_yaml = "0.9"
