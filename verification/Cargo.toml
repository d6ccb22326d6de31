[package]
name = "discordbot"
version = "0.1.0"
edition = "2021"
publish = false

[dependencies]
rand = "0.8"
colored = "*"
tokio = { version = "*", features = ["full"] }
axum = { version = "*", features = ["ws"] }
tower-http = { version = "*", features = ["fs"] }
futures = "*"
once_cell = "*"
serde = { version = "*", features = ["derive"] }
serde_json = "*"
rusqlite = { version = "*", features = ["bundled"] }
chrono = "*"
uuid = { version = "*", features = ["v4"] }
