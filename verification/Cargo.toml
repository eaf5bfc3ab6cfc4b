[package]
name = "notion_api"
version = "0.1.0"
edition = "2021"
publish = false

[dependencies]
anyhow = "1"
base64 = "0.21"
chrono = "0.4"
dotenv = "0.15"
env_logger = "0.10"
futures = "0.3"
lazy_static = "1"
log = "0.4"
md-5 = "0.10"
reqwest = { version = "0.11", features = ["blocking", "json"] }
sea-orm = { version = "0.12", default-features = false, features = ["macros"] }
serde_json = "1"
thiserror = "1"
