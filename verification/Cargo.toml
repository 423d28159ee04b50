[package]
name = "et_mm_bot"
version = "0.1.0"
edition = "2021"
publish = false

[dependencies]
serenity = "0.9"
slog = "2"
slog-async = "2"
slog-term = "2"
tokio = { version = "0.2", features = ["macros", "rt-threaded", "sync"] }
tokio-postgres = "0.5"
