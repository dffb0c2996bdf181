[package]
name = "serchio_digest"
version = "0.1.0"
edition = "2021"
publish = false

[dependencies]
ammonia = "*"
chrono = "*"
rss = "*"
serde_json = "*"
reqwest = "*"
tokio = { version = "*", features = ["macros", "rt-multi-thread"] }
