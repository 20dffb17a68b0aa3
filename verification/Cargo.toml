[package]
name = "zino_sched"
version = "0.1.0"
edition = "2021"
publish = false

[dependencies]
chrono = "*"
cron = "*"
serde = { version = "*", features = ["derive"] }
serde_json = "*"
