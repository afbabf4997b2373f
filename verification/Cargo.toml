[package]
name = "gitgud_greedy"
version = "0.1.0"
edition = "2021"
publish = false

[dependencies]
csv = "*"
comfy-table = "*"
rusqlite = { version = "*", features = ["bundled"] }
clap = { version = "*", features = ["derive"] }
log = "*"
env_logger = "*"
chrono = "*"
