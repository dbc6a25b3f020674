[package]
name = "versions"
version = "0.1.0"
edition = "2021"
publish = false

[dependencies]
log = "=0.4.34"
reqwest = { version = "=0.11.27", default-features = false }
semver = { version = "=1.0.28", features = ["serde"] }
thiserror = "=1.0.69"
toml = "=0.5.11"
