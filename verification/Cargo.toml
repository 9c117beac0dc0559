[package]
name = "ravault_ui"
version = "0.1.0"
edition = "2021"
publish = false

[dependencies]
tiny-bip39 = "*"
zeroize = "1"
