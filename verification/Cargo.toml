[package]
name = "pallet_kitties"
version = "0.1.0"
edition = "2021"
publish = false

[dependencies]
polkadot-sdk-frame = { version = "=0.7.0", features = ["experimental"] }
