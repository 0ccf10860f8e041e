[package]
name = "polysig"
version = "0.1.0"
edition = "2021"
publish = false

[dependencies]
pem = "=3.0.6"
snow = "=0.9.6"
uuid = { version = "=1.27.0", features = ["v4"] }
frost-ed25519 = "=3.0.0"
flate2 = "1"
ed25519-dalek = { version = "=2.2.0", features = ["rand_core"] }
rand = "=0.8.8"
serde = { version = "=1.0.229", features = ["derive"] }
serde_json = "=1.0.151"
tokio = { version = "=1.53.2", features = ["sync", "rt", "macros"] }
