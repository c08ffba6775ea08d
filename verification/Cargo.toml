[package]
name = "nrc"
version = "0.1.0"
edition = "2021"
publish = false

[dependencies]
anyhow = "1"
clap = { version = "4", features = ["derive"] }
dirs = "6"
ignore = "0.4"
notify = "8"
ratatui = "0.29"
serde = { version = "1", features = ["derive"] }
serde_json = "1"
