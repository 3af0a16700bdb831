[package]
name = "data_contracts"
version = "0.1.0"
edition = "2021"
publish = false

[dependencies]
regex = "=1.13.1"
chrono = "=0.4.45"
serde = { version = "=1.0.229", features = ["derive"] }
serde_json = "=1.0.154"
serde_yaml = "=0.9.34"
serde_yaml_ng = "=0.10.0"
toml = "=1.1.8"
clap = { version = "=4.6.7", features = ["derive"] }
colored = "=3.1.1"
tokio = { version = "=1.54.1", features = ["full"] }
tracing = "=0.1.44"
tracing-subscriber = "=0.3.23"
thiserror = "=2.0.21"
anyhow = "=1.0.104"
futures = "=0.3.34"
iceberg = "=0.7.0"
iceberg-catalog-rest = "=0.7.0"
arrow-array = "=55.2.0"
arrow-schema = "=55.2.0"
