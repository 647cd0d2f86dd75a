[package]
name = "book_batch_rust"
version = "0.1.0"
edition = "2021"
publish = false

[dependencies]
chrono = "0.4"
regex = "1"
clap = { version = "4", features = ["derive"] }
serde = { version = "1", features = ["derive"] }
serde_json = "1"
serde_with = "3"
dotenvy = "0.15"
tracing = "0.1"
tracing-subscriber = { version = "0.3", features = ["json", "local-time"] }
tracing-appender = "0.2"
time = { version = "0.3", features = ["macros"] }
reqwest = { version = "0.12", default-features = false, features = ["blocking"] }
r2d2 = "0.8"
diesel = { version = "2", features = ["postgres", "r2d2", "chrono"] }
pgvector = { version = "0.4", features = ["diesel"] }
mongodb = { version = "3", features = ["sync"] }
config = "0.15"
