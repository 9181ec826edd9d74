[package]
name = "ic_talent"
version = "0.1.0"
edition = "2021"
publish = false

[dependencies]
ic-stable-structures = "*"
candid = "*"
ic-cdk = "*"
icrc-ledger-types = "*"
serde = { version = "*", features = ["derive"] }
hex = "*"
