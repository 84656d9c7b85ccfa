[package]
name = "rzstd"
version = "0.1.0"
edition = "2021"
publish = false

[dependencies]
anyhow = "*"
colored = "*"
futures = "*"
grep-matcher = "*"
grep-regex = "*"
tokio = { version = "*", features = ["sync", "rt-multi-thread", "macros", "time"] }
zstd = "*"
