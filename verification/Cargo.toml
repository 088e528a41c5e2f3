[package]
name = "sqlserver_mcp"
version = "0.1.0"
edition = "2021"
publish = false

[dependencies]
anyhow = "=1.0.104"
base64 = "=0.22.1"
bb8 = "=0.8.6"
bb8-tiberius = "=0.15.0"
chrono = "=0.4.45"
reqwest = { version = "=0.12.28", default-features = false, features = ["json", "rustls-tls"] }
serde = { version = "=1.0.229", features = ["derive"] }
serde_json = "=1.0.154"
tiberius = { version = "=0.12.3", default-features = false, features = ["tds73", "chrono", "rustls"] }
tokio = { version = "=1.54.1", features = ["macros", "rt-multi-thread", "net"] }
uuid = "=1.29.0"
