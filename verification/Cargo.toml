[package]
name = "rustproxy"
version = "0.1.4"
edition = "2021"
publish = false

[dependencies]
bytes = "=1.12.1"
bcrypt = "=0.15.1"
pem = "=3.0.6"
rustls-pemfile = "=2.2.0"
rusqlite = { version = "=0.32.1", features = ["bundled"] }
serde = { version = "=1.0.229", features = ["derive"] }
serde_json = "=1.0.154"
toml = "=0.8.23"
thiserror = "=1.0.69"
tokio = { version = "=1.54.1", features = ["full"] }
tokio-util = { version = "=0.7.20", features = ["codec"] }
tokio-rustls = { version = "=0.26.6", default-features = false, features = ["ring", "tls12", "logging"] }
rustls = { version = "=0.23.46", default-features = false, features = ["ring", "std", "tls12", "logging"] }
futures = "=0.3.34"
axum = { version = "=0.7.9", features = ["ws"] }
tower-http = { version = "=0.5.2", features = ["cors"] }
jsonwebtoken = "=9.3.1"
rcgen = { version = "=0.13.2", default-features = false, features = ["ring", "pem"] }
tracing = "=0.1.44"
anyhow = "=1.0.104"
