[package]
name = "voting_dapp_backend"
version = "0.1.0"
edition = "2021"
publish = false

[dependencies]
candid = "=0.10.39"
ic-cdk = "0.13"
ic-cdk-macros = "0.13"
serde = { version = "=1.0.229", features = ["derive"] }
