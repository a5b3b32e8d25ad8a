[package]
name = "lopin"
version = "0.1.0"
edition = "2021"
publish = false

[dependencies]
async-trait = "0.1"
http-body-util = "0.1"
hyper = { version = "1", features = ["http1", "server", "client"] }
hyper-rustls = "0.27"
hyper-util = { version = "0.1", features = ["tokio", "server", "client-legacy", "http1"] }
regex = "1"
serde = { version = "1", features = ["derive"] }
serde_json = "1"
serde_urlencoded = "0.7"
tokio = { version = "1", features = ["rt-multi-thread", "net", "macros", "io-util", "time"] }
