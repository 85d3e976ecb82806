[package]
name = "cfst"
version = "0.1.0"
edition = "2021"
publish = false

[dependencies]
http = "1"
http-body = "1"
hyper = { version = "1", features = ["client", "http1"] }
surge-ping = "0.8"
tokio = { version = "1", features = ["net", "rt", "rt-multi-thread", "time", "sync", "macros"] }
