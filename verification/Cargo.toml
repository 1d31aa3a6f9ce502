[package]
name = "roster_diff"
version = "0.1.0"
edition = "2021"
publish = false

[dependencies]
chrono = { version = "0.4", default-features = false, features = ["std"] }
polars = { version = "0.46", default-features = false, features = ["csv"] }
serde = { version = "1", features = ["derive"] }
serde-wasm-bindgen = "0.6"
sxd-document = "0.3"
sxd-xpath = "0.4"
wasm-bindgen = "0.2"
