[package]
name = "cavalier_contours_web_ffi"
version = "0.1.0"
edition = "2021"
publish = false

[dependencies]
cavalier_contours = "*"
wasm-bindgen = "*"
js-sys = "*"
serde-wasm-bindgen = "*"
serde = { version = "1", features = ["derive"] }
