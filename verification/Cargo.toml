[package]
name = "minah"
version = "0.1.0"
edition = "2021"
publish = false

[dependencies]
soroban-sdk = "23"
stellar-access = "=0.5.0"
stellar-macros = "=0.5.0"
stellar-tokens = "=0.5.0"
