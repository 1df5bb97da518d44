[package]
name = "consumption_unit"
version = "0.1.0"
edition = "2021"
publish = false

[dependencies]
cosmwasm-std = "*"
cw-storage-plus = "*"
cw2 = "*"
cw-ownable = "*"
serde = { version = "*", features = ["derive"] }
thiserror = "*"
