[package]
name = "wave_vortex"
version = "0.1.0"
edition = "2021"
publish = false

[dependencies]
pbkdf2 = "0.12"
sha2 = "0.10"
rand = "0.8"
statrs = "0.16"
wasm-bindgen = "0.2"
