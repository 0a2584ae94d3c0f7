[package]
name = "solvedbot"
version = "0.1.0"
edition = "2021"
publish = false

[dependencies]
anyhow = "1"
dotenv = "0.15"
env_logger = "0.11"
log = "0.4"
reqwest = { version = "0.12", default-features = false, features = ["json"] }
serde = { version = "1", features = ["derive"] }
serde_repr = "0.1"
tokio = { version = "1", features = ["rt-multi-thread", "macros"] }
