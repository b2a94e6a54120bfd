[package]
name = "wasi-js-transformer"
version = "0.1.0"
edition = "2021"
publish = false

[dependencies]
wasmparser = "0.35.3"
