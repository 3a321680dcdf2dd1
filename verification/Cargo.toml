[package]
name = "member_verify"
version = "0.1.0"
edition = "2021"
publish = false

[dependencies]
rand = "0.8"
askama = "0.12"
axum = "0.6"
once_cell = "1"
poise = "0.5"
reqwest = { version = "0.11", default-features = false, features = ["json", "rustls-tls"] }
serde = { version = "1", features = ["derive"] }
serde_json = "1"
tokio = { version = "1", features = ["macros", "rt-multi-thread"] }
