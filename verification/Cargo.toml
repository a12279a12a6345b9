[package]
name = "webmaths"
version = "0.1.0"
edition = "2021"
publish = false

[dependencies]
auto_ops = "0.3"
crossbeam = "0.8"
itertools = "0.10"
packed_struct = "0.10"
rand = "0.8"
termion = "1.5"
wasm-bindgen = "0.2"
