[package]
name = "cw_dex_router"
version = "0.1.0"
edition = "2021"
publish = false

[dependencies]
cosmwasm-std = "1"
cw-storage-plus = "1"
cw-controllers = "1"
cw2 = "1"
apollo-cw-asset = "*"
thiserror = "1"
serde = { version = "1", features = ["derive"] }
