[package]
name = "p2p_handshake"
version = "0.1.0"
edition = "2021"
publish = false

[dependencies]
sha2 = "0.10"
tokio = { version = "1", default-features = false, features = ["rt", "net", "io-util"] }
futures = { version = "0.3", default-features = false, features = ["std"] }
