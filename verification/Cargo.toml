[package]
name = "tauri_axum_htmx"
version = "0.1.0"
edition = "2021"
publish = false

[dependencies]
axum = "*"
serde = { version = "1", features = ["derive"] }
thiserror = "*"
tower-service = "0.3"

[dev-dependencies]
tokio = { version = "1", features = ["rt"] }
