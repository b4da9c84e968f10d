[package]
name = "pyth_receiver"
version = "0.1.0"
edition = "2021"
publish = false

[dependencies]
byteorder = "*"
pythnet-sdk = "*"
wormhole-vaas = "*"
stylus-sdk = "*"
