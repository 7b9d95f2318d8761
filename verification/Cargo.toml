[package]
name = "protonmail_client"
version = "0.1.0"
edition = "2021"
publish = false

[dependencies]
serde = { version = "=1.0.229", features = ["derive"] }
serde_json = "=1.0.154"
lettre = { version = "=0.11.23", default-features = false, features = ["builder", "smtp-transport", "tokio1"] }
mail-parser = "=0.11.9"
uuid = { version = "=1.29.1", features = ["v4"] }
chrono = { version = "=0.4.45", default-features = false, features = ["clock", "std"] }
tokio = { version = "=1.54.1", features = ["macros", "rt-multi-thread", "net", "time", "sync"] }
tokio-util = { version = "=0.7.20", features = ["compat"] }
futures = "=0.3.34"
async-imap = { version = "=0.10.4", default-features = false, features = ["runtime-tokio"] }
sqlx = { version = "=0.8.6", default-features = false, features = ["sqlite", "runtime-tokio", "derive", "macros"] }
clap = { version = "=4.6.7", features = ["derive"] }
reqwest = { version = "=0.12.28", default-features = false, features = ["json"] }
log = "=0.4.35"
env_logger = "=0.11.11"
