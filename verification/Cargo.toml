[package]
name = "nft-candy-machine-v2"
version = "1.0.0"
edition = "2021"
publish = false

[dependencies]
anchor-lang = "0.24.2"
anchor-spl = "0.24.2"
arrayref = "0.3"
metaplex-token-metadata = "0.0.1"
spl-token = { version = "3", features = ["no-entrypoint"] }
