[package]
name = "gotatun-throughput"
version = "0.1.0"
edition = "2021"
publish = false

[dependencies]
anyhow = "1"
clap = { version = "4", features = ["derive"] }
gotatun = { version = "=0.10.2", features = ["device", "tun"] }
hex = "=0.4.3"
ipnetwork = "=0.21.1"
rand = "=0.10.3"
tokio = { version = "1", features = ["full"] }
tracing-subscriber = { version = "0.3", features = ["env-filter"] }
