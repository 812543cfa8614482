[package]
name = "soltarot_nft"
version = "0.1.0"
edition = "2021"
publish = false

[dependencies]
anchor-lang = "0.30"
anchor-spl = { version = "0.30", features = ["metadata"] }
mpl-token-metadata = "4"
