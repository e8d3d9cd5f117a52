[package]
name = "remind_bot"
version = "0.1.0"
edition = "2021"
publish = false

[dependencies]
tokio-retry = "=0.3.2"
chrono = "=0.4.45"
tokio = { version = "=1.53.2", features = ["macros", "rt-multi-thread", "time"] }
teloxide = { version = "=0.17.0", features = ["macros"] }
takecell = "=0.1.1"
