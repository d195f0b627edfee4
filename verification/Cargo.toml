[package]
name = "primobot"
version = "0.1.0"
edition = "2021"
publish = false

[dependencies]
chrono = "=0.4.45"
dotenv = "=0.15.0"
serenity = { version = "=0.12.5", features = ["collector"] }
tokio = { version = "=1.54.1", features = ["macros", "rt-multi-thread"] }
