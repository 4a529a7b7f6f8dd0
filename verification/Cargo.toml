[package]
name = "inmembro"
version = "0.1.0"
edition = "2021"
publish = false

[dependencies]
serde_json = "=1.0.151"
uuid = { version = "=1.27.0", features = ["v4"] }
serde = { version = "=1.0.229", features = ["derive"] }
serde_yml = "=0.0.13"
axum = "=0.7.9"
futures = "=0.3.34"
tokio = { version = "=1.53.2", features = ["rt-multi-thread", "macros"] }
