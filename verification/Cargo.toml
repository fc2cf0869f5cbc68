[package]
name = "stakechain"
version = "0.1.0"
edition = "2021"
publish = false

[dependencies]
dashmap = "5"
ed25519-dalek = "1"
hex = "0.4"
rand = "0.7"
sha2 = "0.10"
