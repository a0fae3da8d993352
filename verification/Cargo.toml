[package]
name = "netmap_rs"
version = "0.1.0"
edition = "2021"
publish = false

[dependencies]
libc = "*"
tokio = { version = "*", features = ["net", "io-util", "rt", "time", "macros"] }
