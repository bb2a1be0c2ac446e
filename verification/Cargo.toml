[package]
name = "swap_lsh"
version = "0.1.0"
edition = "2021"
publish = false

[dependencies]
solana-poseidon = "*"
