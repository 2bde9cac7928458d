[package]
name = "tabnotes"
version = "0.1.0"
edition = "2021"
publish = false

[dependencies]
anyhow = "=1.0.104"
axum = "=0.8.9"
axum-template = { version = "=3.0.0", features = ["handlebars"] }
chrono = "=0.4.45"
dirs = "=7.0.0"
handlebars = { version = "=6.4.4", features = ["dir_source"] }
http = "=1.5.0"
local-ip-address = "=0.6.13"
serde = { version = "=1.0.229", features = ["derive"] }
tokio = { version = "=1.53.2", features = ["full"] }
tokio-postgres = "=0.7.18"
