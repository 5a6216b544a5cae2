[package]
name = "ollama_rs"
version = "0.1.0"
edition = "2021"
publish = false

[dependencies]
async-trait = "*"
http = "*"
reqwest = { version = "*", default-features = false }
reqwest-middleware = "*"
tokio = { version = "*", default-features = false, features = ["io-std", "io-util"] }
tokio-stream = "*"
tracing = "*"
