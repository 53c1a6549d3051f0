[package]
name = "swiss_knife"
version = "0.1.0"
edition = "2021"
publish = false

[dependencies]
anyhow = "=1.0.104"
aws-config = { version = "=1.12.0", features = ["behavior-version-latest"] }
aws-sdk-s3 = { version = "=1.152.0", features = ["behavior-version-latest"] }
aws-types = "=1.6.0"
base64 = "=0.22.1"
blake3 = "=1.8.7"
clap = { version = "=4.6.7", features = ["derive"] }
console = "=0.15.11"
dotenv = "=0.15.0"
futures = "=0.3.34"
indicatif = "=0.17.11"
md-5 = "=0.10.6"
reqwest = { version = "=0.12.28", default-features = false, features = ["json", "multipart", "rustls-tls"] }
serde = { version = "=1.0.229", features = ["derive"] }
serde_json = "=1.0.154"
serde_yaml = "=0.9.34"
slug = "=0.1.6"
thiserror = "=1.0.69"
tokio = { version = "=1.54.1", features = ["full"] }
tracing = "=0.1.44"
tracing-subscriber = { version = "=0.3.23", features = ["env-filter"] }
walkdir = "=2.5.0"
