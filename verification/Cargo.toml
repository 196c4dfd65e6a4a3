[package]
name = "severn"
version = "0.1.0"
edition = "2021"
publish = false

[dependencies]
serde_json = "=1.0.151"
anyhow = "=1.0.104"
async-trait = "=0.1.92"
thiserror = "=2.0.21"
uuid = { version = "=1.27.0", features = ["v4"] }
reqwest = { version = "=0.13.5", default-features = false, features = ["json"] }
async-openai = { version = "=0.42.1", features = ["chat-completion", "embedding"] }
qdrant-client = "=1.19.0"
