[package]
name = "ollama_workflows"
version = "0.1.0"
edition = "2021"
publish = false

[dependencies]
serde = { version = "1", features = ["derive"] }
serde_json = "1"
serde_json5 = "*"
base64 = "*"
rand = "*"
text-splitter = "*"
reqwest = { version = "*", default-features = false, features = ["json", "rustls-tls"] }
tokio = { version = "1", features = ["rt", "macros"] }
scraper = "*"
ollama-rs = "*"
log = "*"
env_logger = "*"
dotenv = "*"
