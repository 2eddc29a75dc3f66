[package]
name = "omniflix_channel"
version = "0.1.0"
edition = "2021"
publish = false

[dependencies]
cosmwasm-std = { version = "=2.3.6", features = ["stargate"] }
cosmwasm-schema = "=2.3.6"
cw-storage-plus = "=2.0.0"
cw-utils = "=2.0.0"
sha2 = "=0.10.9"
rand_core = "=0.6.4"
rand_xoshiro = "=0.6.0"
serde = { version = "=1.0.229", features = ["derive"] }
serde_json = "=1.0.154"
thiserror = "=1.0.69"
omniflix-std = "=0.2.1"
