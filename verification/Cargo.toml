[package]
name = "dialogue_bot"
version = "0.1.0"
edition = "2021"
publish = false

[dependencies]
dotenv = "=0.15.0"
dptree = "=0.3.0"
log = "=0.4.34"
pretty_env_logger = "=0.5.0"
serde = { version = "=1.0.229", features = ["derive"] }
takecell = "=0.1.1"
teloxide = { version = "=0.13.0", features = ["macros", "sqlite-storage-rustls"] }
tokio = { version = "=1.53.2", features = ["macros", "rt-multi-thread"] }
