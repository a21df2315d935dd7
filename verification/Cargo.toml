[package]
name = "porkdyn"
version = "0.1.0"
edition = "2021"
publish = false

[dependencies]
lambda_http = "*"
reqwest = { version = "0.12", default-features = false, features = ["json", "rustls-tls"] }
serde = { version = "1", features = ["derive"] }
serde_json = "1"
thiserror = "1"
tokio = { version = "1", features = ["macros"] }
