[package]
name = "dictstore"
version = "0.1.0"
edition = "2021"
publish = false

[dependencies]
rusqlite = { version = "*", features = ["bundled"] }
serde_json = "*"
serde = { version = "*", features = ["derive"] }
toml = "*"
axum = { version = "*", features = ["multipart"] }
tokio = { version = "*", features = ["macros", "rt-multi-thread", "net"] }
tower-http = { version = "*", features = ["fs"] }
