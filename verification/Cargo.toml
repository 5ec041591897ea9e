[package]
name = "network"
version = "0.1.0"
edition = "2021"

[dependencies]
csv = "1"
rand = "0.8"
