[package]
name = "cw721-rewards"
version = "0.1.0"
edition = "2021"
publish = false

[dependencies]
archway-bindings = "*"
cosmwasm-schema = "1"
cosmwasm-std = "1"
cw-ownable = "0.5"
cw-utils = "1"
cw2 = "1"
cw721 = "0.18"
schemars = "0.8"
serde-json-wasm = "0.5"
thiserror = "1"
