[package]
name = "sing_box_config_api"
version = "0.1.0"
edition = "2021"
publish = false

[dependencies]
anyhow = "1"
axum = "0.7"
chrono = "0.4"
reqwest = { version = "0.12", default-features = false, features = ["rustls-tls"] }
serde = { version = "1", features = ["derive"] }
serde_json = "1"
shell-words = "1"
tokio = { version = "1", features = ["fs", "macros", "net", "process", "rt-multi-thread"] }
toml = "0.8"
tower-http = { version = "0.6", features = ["cors"] }
