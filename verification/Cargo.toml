[package]
name = "wager_escrow"
version = "0.1.0"
edition = "2021"
publish = false

[dependencies]
bech32 = "0.11"
multiversx-sc-snippets = "0.53"
tokio = { version = "1", features = ["macros", "rt-multi-thread"] }
async-std = "1"
env_logger = "0.11"
serde = { version = "1", features = ["derive"] }
toml = "0.8"
