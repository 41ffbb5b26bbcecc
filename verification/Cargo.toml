[package]
name = "sqlpage"
version = "0.1.0"
edition = "2021"
publish = false

[dependencies]
handlebars = "5"
serde_json = "1"
rand = "0.8"
anyhow = "1"
log = "0.4"
env_logger = "0.10"
serde = { version = "1", features = ["derive"] }
config = { version = "0.13", default-features = false, features = ["json"] }
actix-web = { version = "4", default-features = false, features = ["macros"] }
tokio = { version = "1", features = ["sync", "rt", "macros", "time"] }
tokio-stream = "0.1"
futures-util = "0.3"
async-stream = "0.3"
percent-encoding = "2"
mime_guess = "2"
chrono = "0.4"
markdown = "*"
sqlx = { version = "0.6", default-features = false, features = ["any", "sqlite", "runtime-tokio-rustls"] }
