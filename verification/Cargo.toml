[package]
name = "asset_ledger"
version = "0.1.0"
edition = "2021"
publish = false

[dependencies]
candid = "0.10"
hex = "0.4"
ic-cdk = "0.13"
ic_principal = "0.1"
ic-stable-structures = "0.6"
num-bigint = "0.4"
