[package]
name = "funding_contract"
version = "0.1.0"
edition = "2021"
publish = false

[dependencies]
cosmwasm-std = "0.11"
cosmwasm-storage = "0.11"
integer-sqrt = "=0.1.5"
schemars = "0.7"
serde = { version = "1.0", default-features = false, features = ["derive"] }
thiserror = "1.0"
