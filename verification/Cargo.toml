[package]
name = "appointment_flow"
version = "0.1.0"
edition = "2021"
publish = false

[dependencies]
anyhow = "1"
bincode = "=1.3.3"
bs58 = "=0.4.0"
chrono = { version = "=0.4.45", features = ["serde", "unstable-locales"] }
dotenv = "0.15"
env_logger = "0.9"
log = "0.4"
serde = { version = "1", features = ["derive"] }
sqlx = { version = "0.6", features = ["runtime-tokio-rustls", "postgres", "macros", "migrate"] }
takecell = "=0.1.1"
teloxide = { version = "0.10", features = ["macros"] }
tokio = { version = "1", features = ["macros", "rt-multi-thread"] }
