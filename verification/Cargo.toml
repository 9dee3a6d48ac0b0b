[package]
name = "art"
version = "0.1.0"
edition = "2021"
publish = false

[dependencies]
num-bigint = "0.4"
num-rational = "0.4"
num-traits = "0.2"
near-sdk = "3.1.0"
near-contract-standards = "3"
