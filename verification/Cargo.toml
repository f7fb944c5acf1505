[package]
name = "poh_node"
version = "0.1.0"
edition = "2021"
publish = false

[dependencies]
sha2 = "0.10"
bs58 = "0.5"
hex = "0.4"
rand = "0.8"
serde = { version = "1", features = ["derive"] }
serde_json = "1"
tokio = { version = "1", features = ["full"] }
warp = "0.3"
