[package]
name = "configtrace"
version = "0.1.0"
edition = "2021"
publish = false

[dependencies]
anyhow = "1"
chrono = "0.4"
clap = { version = "4", features = ["derive"] }
git2 = { version = "*", default-features = false }
glob = "0.3"
lazy_static = "1"
regex = "1"
serde = { version = "1", features = ["derive"] }
serde_json = "1"
serde_yaml = "0.9"
sha2 = "0.10"
termcolor = "1"
toml = "*"
walkdir = "2"
