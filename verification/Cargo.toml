[package]
name = "rules_packer"
version = "0.1.0"
edition = "2021"
publish = false

[dependencies]
anyhow = "1"
clap = { version = "4", features = ["derive"] }
glob = "0.3"
serde_yaml = "0.9"
zstd = "0.13"

[dev-dependencies]
bincode = "1.3"
