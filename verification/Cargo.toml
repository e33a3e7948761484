[package]
name = "rusty_secrets"
version = "0.1.0"
edition = "2021"
publish = false

[dependencies]
ring = "=0.16.20"
merkle_sigs = "=1.7.0"
