[package]
name = "ore_pool"
version = "0.1.0"
edition = "2021"
publish = false

[dependencies]
axum = { version = "=0.7.9", features = ["ws"] }
clap = { version = "=4.6.7", features = ["derive"] }
colored = "=2.2.0"
dotenv = "0.15"
drillx = "=2.0.1"
eyre = "0.6"
futures = "0.3"
ore-api = "=2.2.0"
rand = "=0.8.8"
serde = { version = "1", features = ["derive"] }
serde_json = "1"
solana-sdk = "=1.18.26"
steel = "=1.3.0"
tokio = { version = "1", features = ["full"] }
tower-http = { version = "=0.5.2", features = ["trace"] }
tracing = "0.1"
tracing-subscriber = { version = "0.3", features = ["env-filter"] }
