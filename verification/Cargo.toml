[package]
name = "rlang"
version = "0.1.0"
edition = "2021"
publish = false

[dependencies]
heapless = "0.8"
failure = "0.1"
failure_derive = "0.1"
