[package]
name = "rqpy"
version = "0.1.0"
edition = "2021"
publish = false

[dependencies]
reqwest = { version = "=0.12.28", default-features = false, features = ["rustls-tls", "multipart", "cookies"] }
rustls = { version = "=0.23.45", default-features = false, features = ["ring", "std"] }
encoding_rs = "=0.8.42"
tokio = { version = "=1.53.2", default-features = false, features = ["rt", "fs", "io-util"] }
