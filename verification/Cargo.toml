[package]
name = "json_resolve"
version = "0.1.0"
edition = "2021"
publish = false

[dependencies]
serde = { version = "1", features = ["derive"] }
serde_json = "1"
serde-wasm-bindgen = "*"
wasm-bindgen = "0.2"
web-sys = { version = "0.3", features = ["console"] }
