[package]
name = "packet_registry"
version = "0.1.0"
edition = "2021"
publish = false

[dependencies]
linked-hash-map = "*"
serde = { version = "*", features = ["derive"] }
serde_json = "*"
reqwest = { version = "*", default-features = false, features = ["json", "rustls-tls"] }
tokio = { version = "*", features = ["macros", "rt-multi-thread", "signal"] }
serenity = { version = "0.11", features = ["standard_framework"] }
dotenv = "*"
tracing = "*"
tracing-subscriber = { version = "*", features = ["env-filter"] }
