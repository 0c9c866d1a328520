[package]
name = "rinha-rust-warp"
version = "0.1.0"
edition = "2021"
publish = false

[dependencies]
anyhow = "1"
async-nats = "*"
bytes = "1"
chrono = { version = "0.4", features = ["serde"] }
env_logger = "0.11"
futures-util = "0.3"
log = "0.4"
reqwest = { version = "0.12", default-features = false, features = ["json"] }
serde = { version = "1", features = ["derive"] }
serde_json = "1"
sqlx = { version = "0.8", default-features = false, features = ["postgres", "runtime-tokio", "chrono"] }
tokio = { version = "1", features = ["macros", "rt-multi-thread", "net", "time"] }
tokio-stream = { version = "0.1", features = ["net"] }
warp = { version = "0.3", default-features = false }
