[package]
name = "lisa"
version = "0.1.0"
edition = "2021"
publish = false

[dependencies]
anyhow = "*"
chrono = "*"
clap = { version = "*", features = ["derive"] }
crossterm = "*"
dialoguer = "*"
serde = { version = "*", features = ["derive"] }
serde_json = "*"
toml = "*"
