[package]
name = "easydns"
version = "0.1.0"
edition = "2021"
publish = false

[dependencies]
async-trait = "0.1"
crossbeam-channel = "0.5"
dashmap = "*"
futures-util = "0.3"
log = "0.4"
regex = "1"
simple_logger = "*"
tokio = { version = "1", features = ["rt-multi-thread", "macros", "net", "fs", "io-util", "signal", "time", "sync", "process"] }
tokio-icmp = "*"
toml = "*"
