[package]
name = "ibm1130"
version = "0.1.0"
edition = "2021"
publish = false

[dependencies]
serde = { version = "1", features = ["derive"] }
serde-wasm-bindgen = "*"
thiserror = "*"
wasm-bindgen = "*"
