[package]
name = "directory"
version = "0.1.0"
edition = "2021"
publish = false

[dependencies]
ahash = "0.8"
deadpool = { version = "0.10", features = ["managed", "rt_tokio_1"] }
hyper = "1"
mail-auth = "0.3"
mail-parser = "0.9"
rand = "0.8"
regex = "1"
serde = { version = "1", features = ["derive"] }
tracing = "0.1"
