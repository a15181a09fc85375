[package]
name = "nederlandskie"
version = "0.1.0"
edition = "2021"
publish = false

[dependencies]
anyhow = "=1.0.104"
async-trait = "=0.1.92"
atrium-api = "=0.25.8"
axum = "=0.8.9"
chrono = "=0.4.45"
clap = { version = "=4.6.7", features = ["derive"] }
dotenv = "=0.15.0"
env_logger = "=0.11.11"
figment = { version = "=0.10.19", features = ["toml", "env"] }
futures = "=0.3.34"
ipld-core = "=0.4.3"
log = "=0.4.34"
rs-car = "=0.5.0"
scooby = "=0.5.0"
serde = { version = "=1.0.229", features = ["derive"] }
serde_ipld_dagcbor = "=0.6.4"
sqlx = { version = "=0.9.0", default-features = false, features = ["postgres", "runtime-tokio", "chrono"] }
tokio = { version = "=1.54.1", features = ["full"] }
tokio-stream = { version = "=0.1.19", features = ["time"] }
tokio-tungstenite = { version = "=0.30.0", features = ["native-tls"] }

[dev-dependencies]
sha2 = "=0.10.9"
