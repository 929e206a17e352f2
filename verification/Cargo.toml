[package]
name = "hybrid_mount"
version = "0.1.0"
edition = "2021"
publish = false

[dependencies]
anyhow = "1"
extattr = "1"
fastrand = "2"
log = "0.4"
procfs = "0.18"
regex-lite = "0.1"
rustix = { version = "1", features = ["fs", "mount"] }
serde = { version = "1", features = ["derive"] }
toml = "0.9"
xattr = "1"
