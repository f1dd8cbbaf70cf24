[package]
name = "chapter_export"
version = "0.1.0"
edition = "2021"
publish = false

[dependencies]
regex = "1"
url = "2"
epub-builder = "0.7"
zip = "2"
serde_json = "1"
serde = { version = "1", features = ["derive"] }
tokio = { version = "1", features = ["rt-multi-thread", "macros", "time", "net"] }
sqlx = { version = "0.8", default-features = false, features = ["runtime-tokio", "sqlite", "time"] }
reqwest = { version = "0.12", default-features = false, features = ["json"] }
axum = "0.7"
tower-http = { version = "0.6", features = ["fs"] }
eyre = "0.6"
time = { version = "0.3", features = ["formatting"] }
futures = "0.3"
dotenv = "0.15"
log = "0.4"
pretty_env_logger = "0.5"
local-ip-address = "0.6"
