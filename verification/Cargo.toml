[package]
name = "rusther"
version = "0.1.0"
edition = "2021"
publish = false

[dependencies]
rand = "0.8"
log = "0.4"
serenity = { version = "0.11", default-features = false, features = ["builder", "cache", "client", "gateway", "http", "model", "utils", "rustls_backend"] }
simple_logger = "4"
tokio = { version = "1", features = ["macros", "rt-multi-thread", "sync"] }
