[package]
name = "futu"
version = "0.1.0"
edition = "2021"
publish = false

[dependencies]
aes = "=0.8.4"
sha1 = "=0.10.7"
tokio = { version = "=1.53.2", features = ["sync", "net", "time", "rt", "io-util", "macros"] }
