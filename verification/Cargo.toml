[package]
name = "weggli_ruleset"
version = "0.1.0"
edition = "2021"
publish = false

[dependencies]
anyhow = "1"
memchr = "2"
regex = "1"
rustc-hash = "1"
serde = { version = "1", features = ["derive"] }
serde_yaml = "0.9"
thiserror = "1"
tree-sitter = "0.20"
walkdir = "2"
weggli = "0.2"
