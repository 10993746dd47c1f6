[package]
name = "cockatiel"
version = "0.1.0"
edition = "2021"
publish = false

[dependencies]
chrono = "0.4"
crossterm = "0.28"
futures-util = "0.3"
jsonwebtoken = "9"
prost = "0.13"
ratatui = "0.29"
rcgen = "0.13"
rusqlite = { version = "0.32", features = ["bundled"] }
rustls-pemfile = "2"
serde = { version = "1", features = ["derive"] }
serde_json = "1"
tokio = { version = "1", features = ["full"] }
tokio-rustls = { version = "0.26", default-features = false, features = ["ring", "tls12", "logging"] }
tokio-tungstenite = "0.26"
turso = "*"
uuid = { version = "1", features = ["v4", "v7"] }
