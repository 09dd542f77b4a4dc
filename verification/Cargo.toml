[package]
name = "buckwild_protocol"
version = "0.1.0"
edition = "2021"
publish = false

[dependencies]
ring = "=0.17.14"
rand = "=0.8.8"
dashmap = "=6.2.1"
tokio = { version = "=1.54.1", features = ["sync", "time", "rt", "macros"] }
