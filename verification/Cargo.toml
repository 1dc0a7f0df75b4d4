[package]
name = "kv_cache"
version = "0.1.0"
edition = "2021"
publish = false

[dependencies]
const_format = "0.2"
tokio = { version = "1", features = ["io-util", "macros", "net", "rt-multi-thread"] }
