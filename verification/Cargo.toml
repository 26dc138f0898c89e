[package]
name = "nanooctopus"
version = "0.1.0"
edition = "2021"
publish = false

[dependencies]
heapless = "0.8"
embedded-io-async = "*"
edge-http = "*"
edge-ws = "*"
edge-nal = "*"
tokio = { version = "1", features = ["rt", "macros", "net", "io-util", "time"] }
