[package]
name = "tickets_rs"
version = "0.1.0"
edition = "2021"
publish = false

[dependencies]
rand = "=0.8.8"
rusqlite = { version = "=0.41.0", features = ["bundled", "fallible_uint"] }
