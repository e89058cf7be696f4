[package]
name = "game_of_life"
version = "0.1.0"
edition = "2021"
publish = false

[dependencies]
md5 = "*"
url = "*"
wasm-bindgen = "*"
