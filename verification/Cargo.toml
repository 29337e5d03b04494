[package]
name = "evoxy"
version = "0.1.0"
edition = "2021"
publish = false

[dependencies]
osproxy-core = "=1.0.2"
osproxy-spi = "=1.0.2"
osproxy-tenancy = "=1.0.2"
osproxy-rewrite = "=1.0.2"
osproxy-kafka = "*"
serde_json = "1"
thiserror = "*"
tokio = { version = "1", features = ["rt-multi-thread", "macros", "sync", "net", "io-util"] }
tokio-stream = { version = "0.1", features = ["net"] }
tonic = "*"
envoy-types = "*"
