[package]
name = "cw721_sellable"
version = "0.1.0"
edition = "2021"
publish = false

[dependencies]
cosmwasm-std = "1.5"
cw-storage-plus = "0.16"
cw-utils = "0.16"
cw2981-royalties = { version = "0.16", features = ["library"] }
cw721 = "0.16"
cw721-base = { version = "0.16", features = ["library"] }
schemars = "0.8"
serde = { version = "1.0", default-features = false, features = ["derive"] }
thiserror = "1.0"
