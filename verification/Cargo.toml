[package]
name = "rchip8"
version = "0.1.0"
edition = "2021"
publish = false

[dependencies]
anyhow = "1"
bitvec = "0.19"
byteorder = "1"
colored = "*"
console_error_panic_hook = "*"
lazy_static = "*"
linefeed = "*"
pretty-hex = "*"
rand = "0.8"
termion = "*"
wasm-bindgen = "*"
