[package]
name = "linecheck"
version = "0.3.0"
edition = "2021"
publish = false

[dependencies]
anyhow = "1"
clap = { version = "4", features = ["derive"] }
content_inspector = "0.2"
glob = "0.3"
serde = { version = "1", features = ["derive"] }
serde_json = "1"
serde_yaml = "0.9"
walkdir = "2"
wasm-bindgen = "0.2"
serde-wasm-bindgen = "0.6"

[dev-dependencies]
tempfile = "3"
