[package]
name = "mastorelay"
version = "0.1.0"
edition = "2021"
publish = false

[dependencies]
anyhow = "=1.0.104"
config = { version = "=0.15.27", default-features = false, features = ["toml"] }
log = "=0.4.34"
pretty_env_logger = "=0.5.0"
reqwest = { version = "=0.13.5", default-features = false, features = ["blocking", "json", "query"] }
serde = { version = "=1.0.229", features = ["derive"] }
serde-aux = "=4.7.0"
url = { version = "=2.5.8", features = ["serde"] }
