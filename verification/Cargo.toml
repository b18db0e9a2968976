[package]
name = "buffex"
version = "0.1.0"
edition = "2021"
publish = false

[dependencies]
anylr = "=0.1.0"
compio = { version = "=0.19.2", features = ["io", "net", "runtime"] }
futures-io = "=0.3.34"
proc-macro2 = "=1.0.107"
quote = "=1.0.47"
syn = { version = "=2.0.119", features = ["full", "extra-traits"] }
tokio = { version = "=1.54.1", features = ["rt", "io-util", "net"] }
