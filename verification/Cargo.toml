[package]
name = "mcphoton"
version = "0.1.0"
edition = "2021"
publish = false

[dependencies]
rand_mt = "*"
wasm-bindgen = "*"
js-sys = "*"
