[package]
name = "mistralai-client"
version = "0.1.0"
edition = "2021"
publish = false

[dependencies]
async-trait = "0.1"
futures = "0.3"
log = "0.4"
reqwest = { version = "0.12", features = ["json", "blocking", "stream"] }
serde = { version = "1", features = ["derive"] }
serde_json = "1"
strum_macros = "0.26"
thiserror = "1"
tokio = { version = "1", features = ["rt", "rt-multi-thread"] }
