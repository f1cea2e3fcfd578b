[package]
name = "snap_sync"
version = "0.1.0"
edition = "2021"
publish = false

[dependencies]
alloy-consensus = { version = "=1.8.3", default-features = false, features = ["std"] }
alloy-primitives = { version = "=1.7.3", features = ["rlp", "getrandom"] }
alloy-rlp = "=0.3.17"
futures = "=0.3.34"
futures-util = "=0.3.34"
tracing = "=0.1.44"
