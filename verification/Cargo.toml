[package]
name = "midir_tui"
version = "0.1.0"
edition = "2021"
publish = false

[dependencies]
anyhow = "1"
crossterm = "0.27"
directories = "5"
midir = "0.10"
ratatui = "0.26"
serde = { version = "1", features = ["derive"] }
serde_json = "1"
