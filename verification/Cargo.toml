[package]
name = "wallet-core"
version = "0.1.0"
edition = "2021"
publish = false

[dependencies]
tiny-bip39 = "*"
k256 = { version = "0.13", features = ["ecdsa"] }
ed25519-dalek = "2"
sha3 = "0.10"
hex = "0.4"
bs58 = "*"
ur = "*"
anyhow = "1"
qrcode = "*"
ratatui = "0.29"
crossterm = "0.28"
tui-textarea = "0.7"
uniffi = "*"
