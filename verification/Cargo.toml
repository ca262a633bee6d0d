[package]
name = "easy_english"
version = "0.1.0"
edition = "2021"
publish = false

[dependencies]
actix-web = "4"
actix-files = "0.6"
chat-gpt-rs = "*"
chrono = "0.4"
deepl = "*"
futures-util = "0.3"
http = "0.2"
jsonwebtoken = "9"
ramhorns = "1"
serde = { version = "1", features = ["derive"] }
serde_json = { version = "1", features = ["raw_value"] }
sqlx = { version = "0.7", default-features = false, features = ["mysql", "runtime-tokio", "macros"] }
thiserror = "1"
tokio = { version = "1", features = ["macros", "rt-multi-thread", "sync"] }
