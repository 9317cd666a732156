[package]
name = "chat_relay"
version = "0.1.0"
edition = "2021"
publish = false

[dependencies]
actix = "=0.13.5"
actix-cors = "=0.6.5"
actix-session = { version = "=0.7.2", features = ["cookie-session"] }
actix-web = { version = "=4.18.1", default-features = false, features = ["macros", "cookies", "secure-cookies", "ws"] }
actix-web-actors = "=4.3.1"
argon2 = { version = "=0.5.3", features = ["std"] }
chrono = "=0.4.45"
dotenvy = "=0.15.7"
env_logger = "=0.10.2"
log = "=0.4.34"
log4rs = { version = "=1.4.0", default-features = false, features = ["console_appender", "file_appender", "pattern_encoder"] }
rusqlite = { version = "=0.29.0", features = ["bundled"] }
serde = { version = "=1.0.229", features = ["derive"] }
serde_json = "=1.0.154"
uuid = { version = "=1.29.0", features = ["v4", "serde"] }
