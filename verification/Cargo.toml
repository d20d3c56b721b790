[package]
name = "keymanager_core"
version = "0.1.0"
edition = "2021"
publish = false

[dependencies]
lru = "*"
rand = "*"
sp800-185 = "*"
x25519-dalek = "*"
zeroize = "*"
