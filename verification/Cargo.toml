[package]
name = "tl-async-runtime"
version = "0.1.0"
edition = "2021"
publish = false

[dependencies]
crossbeam-channel = "0.5"
futures = "0.3"
mio = { version = "0.8", features = ["os-poll", "net"] }
parking_lot = "0.12"
pin-project = "1"
rand = "0.8"
tokio = "1"
