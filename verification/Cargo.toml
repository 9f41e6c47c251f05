[package]
name = "fennel_relay"
version = "0.1.0"
edition = "2021"
publish = false

[dependencies]
rsa = "0.5"
sha3 = "0.10"
rocksdb = "0.17"
tokio = { version = "1", features = ["rt", "net", "io-util", "macros"] }
