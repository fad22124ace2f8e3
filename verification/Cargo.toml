[package]
name = "tensho"
version = "0.1.0"
edition = "2021"
publish = false

[dependencies]
rand = "0.9"
anyhow = "1"
tracing = "0.1"
bitflags = "2"
js-sys = "0.3"
wasm-bindgen = "0.2"
gloo-net = "0.6"
ocgcore-ffi = "*"
