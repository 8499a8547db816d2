[package]
name = "simple_turing"
version = "0.1.0"
edition = "2021"
publish = false

[dependencies]
simplicity-lang = "*"
base64 = "*"
bitcoin_hashes = "*"
