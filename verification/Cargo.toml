[package]
name = "redstone"
version = "0.1.0"
edition = "2021"
publish = false

[dependencies]
bincode = "1"
rust-crypto = "0.2"
merkle-cbt = "0.2"
serde = { version = "1", features = ["derive"] }
bitcoincash-addr = "0.5"
clap = "2.33"
env_logger = "0.7"
failure = "0.1"
log = "0.4"
