[package]
name = "banglakit"
version = "0.1.0"
edition = "2021"
publish = false

[dependencies]
aho-corasick = "1"
toml = "0.8"
regex = "1"
unicode-normalization = "0.1"
quick-xml = "0.37"
zip = { version = "2", default-features = false, features = ["deflate"] }
anyhow = "1"
base64 = "0.22"
clap = { version = "4", features = ["derive"] }
serde = { version = "1", features = ["derive"] }
serde_json = "1"
wasm-bindgen = "0.2"
serde-wasm-bindgen = "0.6"
once_cell = "1"
