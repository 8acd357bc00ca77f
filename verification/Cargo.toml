[package]
name = "rama"
version = "0.1.0"
edition = "2021"
publish = false

[dependencies]
headers = "0.4"
http = "=1.5.0"
proc-macro2 = "=1.0.107"
quote = "=1.0.47"
syn = { version = "=2.0.119", features = ["full"] }
tokio = { version = "=1.54.1", features = ["io-util"] }
