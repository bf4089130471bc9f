[package]
name = "hostproxy"
version = "0.1.0"
edition = "2021"
publish = false

[dependencies]
anyhow = "1"
tokio = { version = "1", features = ["full"] }
openssl = "0.10"
rcgen = "0.13"
tokio-openssl = "0.6"
structopt = "0.3"

[dev-dependencies]
httparse = "1"
