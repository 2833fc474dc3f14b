[package]
name = "erooster"
version = "0.1.0"
edition = "2021"
publish = false

[dependencies]
mailparse = "=0.18.0"
maildir = "=0.6.6"
tokio = { version = "=1.54.1", features = ["net", "rt-multi-thread", "sync", "io-util", "time"] }
tokio-util = { version = "=0.7.20", features = ["codec"] }
tokio-stream = { version = "=0.1.19", features = ["net"] }
futures = "=0.3.34"
async-trait = "=0.1.92"
color-eyre = "=0.6.5"
tracing = "=0.1.44"
