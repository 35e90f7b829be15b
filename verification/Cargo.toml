[package]
name = "nft_ledger"
version = "0.1.0"
edition = "2021"
publish = false

[dependencies]
parity-scale-codec = { version = "1.3", features = ["derive"] }
frame-support = "2.0"
frame-system = "2.0"
orml-nft = "0.3"
sp-runtime = "2.0"
sp-std = "2.0"
