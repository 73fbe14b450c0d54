[package]
name = "enft"
version = "0.1.0"
edition = "2021"
publish = false

[dependencies]
elrond-wasm = "*"
elrond-wasm-debug = "*"
