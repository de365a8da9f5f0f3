[package]
name = "aqkanji2koe"
version = "0.1.0"
edition = "2021"
publish = false

[dependencies]
e2k = "=0.1.1"
jpreprocess = { version = "=0.15.0", features = ["naist-jdic"] }
wasm-bindgen = "=0.2.130"
console_error_panic_hook = "=0.1.7"
