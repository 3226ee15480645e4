[package]
name = "random_pedersen"
version = "0.1.0"
edition = "2021"
publish = false

[dependencies]
bulletproofs = "=4.0.0"
curve25519-dalek-ng = "=4.1.1"
ring = "=0.17.14"
moka = { version = "=0.12.16", features = ["sync"] }
uuid = { version = "=1.27.0", features = ["v4"] }
serde = { version = "=1.0.229", features = ["derive"] }
axum = "=0.8.9"
tokio = { version = "=1.53.2", features = ["full"] }
reqwest = { version = "=0.13.5", default-features = false, features = ["json"] }
futures = "=0.3.34"
tower-http = { version = "=0.7.1", features = ["cors"] }
tracing = "=0.1.44"
tracing-subscriber = "=0.3.23"
