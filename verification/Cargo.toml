[package]
name = "vfs_core"
version = "0.1.0"
edition = "2021"
publish = false

[dependencies]
wasm-bindgen = "*"
js-sys = "*"
futures-lite = "*"
wasmer-vfs = "*"
