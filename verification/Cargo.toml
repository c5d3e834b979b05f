[package]
name = "llmstream"
version = "0.1.0"
edition = "2021"
publish = false

[dependencies]
serde = { version = "*", features = ["derive"] }
serde_json = "*"
reqwest = { version = "*", default-features = false, features = ["json", "stream"] }
crossterm = "*"
dotenv = "*"
futures = "*"
async-stream = "*"
tokio-stream = "*"
