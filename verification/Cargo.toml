[package]
name = "assembly"
version = "0.1.0"
edition = "2021"
publish = false

[dependencies]
miden-core = "=0.4.0"
winter-crypto = "=0.5.1"
