[package]
name = "rskim-search"
version = "0.1.0"
edition = "2021"
publish = false

[dependencies]
anyhow = "1"
clap = "4"
clap_complete = "4"
dirs = "*"
ignore = "0.4"
memmap2 = "0.9"
rustc-hash = "2"
serde = { version = "1", features = ["derive"] }
serde_json = "1"
thiserror = "*"
tree-sitter = "*"

[dev-dependencies]
tempfile = "3"
