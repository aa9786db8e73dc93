[package]
name = "cw-ibc-example"
version = "0.1.0"
edition = "2021"
publish = false

[dependencies]
cosmwasm-schema = "=1.5.11"
cosmwasm-std = { version = "=1.5.11", features = ["ibc3"] }
cw-storage-plus = "=1.2.0"
cw2 = "=1.1.2"
thiserror = "=1.0.69"
