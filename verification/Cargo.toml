[package]
name = "dnd_sessions"
version = "0.1.0"
edition = "2021"
publish = false

[dependencies]
chrono = "0.4"
dotenv = "0.15"
futures = "0.3"
mysql = "*"
poise = "0.6"
tokio = { version = "1", features = ["macros", "rt-multi-thread"] }
