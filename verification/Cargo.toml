[package]
name = "ghosttype"
version = "0.1.0"
edition = "2021"
publish = false

[dependencies]
ahash = "0.8"
anyhow = "1"
clap = { version = "4", features = ["derive"] }
crossterm = "*"
directories = "*"
env_logger = "*"
fuzzy-matcher = "0.3"
hex = "0.4"
libsql = { version = "*", default-features = false, features = ["core"] }
log = "0.4"
once_cell = "1"
ratatui = "*"
sha2 = "0.10"
tokio = { version = "1", features = ["rt", "rt-multi-thread", "sync", "time"] }
