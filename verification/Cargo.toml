[package]
name = "cw_nibiru"
version = "0.1.0"
edition = "2021"
publish = false

[dependencies]
cosmwasm-std = { version = "=1.5.11", features = ["staking"] }
cw-storage-plus = "=1.2.0"
cw2 = "=1.1.2"
cw-ownable = "=0.5.1"
cw20 = "=1.1.2"
serde = { version = "=1.0.229", features = ["derive"] }
serde_json = "=1.0.154"
thiserror = "=1.0.69"
semver = "=1.0.28"
