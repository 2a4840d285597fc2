[package]
name = "stellhydra_contracts"
version = "0.1.0"
edition = "2021"
publish = false

[dependencies]
soroban-sdk = { version = "=22.0.11" }
