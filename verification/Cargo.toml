[package]
name = "ethproofs_client"
version = "0.1.0"
edition = "2021"
publish = false

[dependencies]
anyhow = "=1.0.104"
base64 = "=0.22.1"
chrono = "=0.4.45"
clap = { version = "=4.6.7", features = ["derive"] }
dotenv = "=0.15.0"
env_logger = "=0.11.11"
ethrex-common = "31.0.0"
ethrex-rlp = "31.0.0"
futures-util = { version = "=0.3.34", features = ["sink"] }
log = "=0.4.35"
reqwest = { version = "=0.12.28", default-features = false, features = ["json", "rustls-tls"] }
serde = { version = "=1.0.229", features = ["derive"] }
serde_json = "=1.0.154"
tokio = { version = "=1.54.1", features = ["full"] }
tokio-tungstenite = "=0.24.0"
url = "=2.5.8"
