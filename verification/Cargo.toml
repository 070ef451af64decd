[package]
name = "rindexer"
version = "0.1.0"
edition = "2021"
publish = false

[dependencies]
async-std = "1"
ethers = { version = "2.0", default-features = false }
futures = "0.3"
regex = "1"
thiserror = "1"
tokio = { version = "1", features = ["macros", "rt", "rt-multi-thread", "sync", "time"] }
tokio-stream = "0.1"
tracing = "0.1"
