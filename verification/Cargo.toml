[package]
name = "ws_rpc"
version = "0.1.0"
edition = "2021"
publish = false

[dependencies]
tokio = { version = "1", features = ["net", "sync", "time", "rt", "rt-multi-thread", "io-util", "macros"] }
parking_lot = "0.12"
