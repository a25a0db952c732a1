[package]
name = "script_playground"
version = "0.1.0"
edition = "2021"
publish = false

[dependencies]
crossterm = "*"
metacall = "*"
ratatui = "*"
serde = { version = "*", features = ["derive"] }
serde_json = "*"
walkdir = "*"
