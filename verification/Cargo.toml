[package]
name = "rust_code_analyzer"
version = "0.1.0"
edition = "2021"
publish = false

[dependencies]
anyhow = "1"
cargo_metadata = "*"
clap = { version = "4", features = ["derive"] }
dirs = "*"
env_logger = "*"
log = "0.4"
petgraph = "*"
proc-macro2 = { version = "1", features = ["span-locations"] }
quote = "1"
regex = "1"
rustc-hash = "*"
scraper = "*"
serde = { version = "1", features = ["derive"] }
serde_json = "1"
syn = { version = "2", features = ["full", "visit", "extra-traits"] }
thiserror = "*"
toml = "*"
walkdir = "2"
