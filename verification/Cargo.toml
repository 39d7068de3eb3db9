[package]
name = "barter"
version = "0.1.0"
edition = "2021"
publish = false

[dependencies]
num-bigint = "=0.4.8"
num-traits = "=0.2.19"
serde = { version = "=1.0.229", features = ["derive"] }
serde_json = "=1.0.154"
tokio = { version = "=1.54.1", features = ["sync", "time", "rt"] }
futures = "=0.3.34"
chrono = { version = "=0.4.45", default-features = false, features = ["clock"] }
thiserror = "=1.0.69"
tracing = "=0.1.44"
redis = { version = "=0.23.5", default-features = false }
reqwest = { version = "=0.11.27", default-features = false, features = ["rustls-tls"] }
url = "=2.5.8"
ethers-core = "2"
ethers-providers = { version = "2", default-features = false }
