[package]
name = "opcua_proxy"
version = "0.1.0"
edition = "2021"
publish = false

[dependencies]
anyhow = "=1.0.104"
chrono = "=0.4.45"
clap = { version = "=4.6.7", features = ["derive", "env"] }
futures-util = "=0.3.34"
mongodb = "=3.9.1"
opcua = { version = "=0.12.0", default-features = false, features = ["client"] }
reqwest = { version = "=0.12.28", default-features = false, features = ["json"] }
serde = { version = "=1.0.229", features = ["derive"] }
tokio = { version = "=1.53.2", features = ["full"] }
url = "=2.5.8"
