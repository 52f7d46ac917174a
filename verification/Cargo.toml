[package]
name = "plust-core"
version = "0.1.0"
edition = "2021"
publish = false

[dependencies]
roxmltree = "*"
serde = { version = "1", features = ["derive"] }
serde_json = "1"
thiserror = "*"
reqwest = { version = "*", default-features = false, features = ["blocking"] }
wasm-bindgen = "*"
wasm-bindgen-futures = "*"
