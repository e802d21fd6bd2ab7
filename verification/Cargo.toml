[package]
name = "adblog"
version = "0.1.0"
edition = "2021"
publish = false

[dependencies]
anyhow = "*"
clap = "*"
colored = "*"
dashmap = "*"
regex = "*"
tokio = { version = "*", features = ["fs", "io-util", "macros", "process", "rt-multi-thread"] }
which = "*"
