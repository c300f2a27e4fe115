[package]
name = "nftswitch"
version = "0.1.0"
edition = "2021"
publish = false

[dependencies]
cosmwasm-std = "1"
cw-utils = "0.13"
cw2 = "0.13"
cw721 = "0.13"
cw721-base = { version = "0.13", features = ["library"] }
cw-storage-plus = "0.13"
schemars = "0.8"
serde = { version = "1", default-features = false, features = ["derive"] }
thiserror = "1"
