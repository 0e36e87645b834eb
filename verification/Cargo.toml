[package]
name = "nonce_auth"
version = "0.1.0"
edition = "2021"
publish = false

[dependencies]
rand = "0.8"
hmac = "0.12"
sha2 = "0.10"
serde = { version = "1", features = ["derive"] }
serde_json = "1"
log = "0.4"
warp = "0.3"
tokio = { version = "1", features = ["rt-multi-thread", "macros", "fs", "io-util"] }
futures-util = "0.3"
wasm-bindgen = "0.2"
