[package]
name = "svm"
version = "0.1.0"
edition = "2021"
publish = false

[dependencies]
serde = { version = "1", features = ["derive"] }
tiny-keccak = "1.5"
wasmer-runtime-core = "*"
