[package]
name = "lexiang"
version = "0.1.0"
edition = "2021"
publish = false

[dependencies]
markdown = ">=1.0.0-alpha.16"
regex = "1"
dirs = "*"
chrono = "0.4"
anyhow = "1"
thiserror = "*"
serde = { version = "1", features = ["derive"] }
serde_json = "1"
serde_yaml = "0.9"
clap = { version = "4", features = ["derive"] }
