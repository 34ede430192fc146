[package]
name = "reply_pool"
version = "0.1.0"
edition = "2021"
publish = false

[dependencies]
nng = { version = "=1.0.1", default-features = false }
