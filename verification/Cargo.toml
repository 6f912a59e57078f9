[package]
name = "ruddit"
version = "0.1.0"
edition = "2021"
publish = false

[dependencies]
anyhow = "1"
base64 = "0.22"
chrono = "0.4"
directories = "5"
genai = "*"
log = "0.4"
regex = "1"
reqwest = { version = "0.12", features = ["json"] }
resend-rs = "*"
rusqlite = { version = "0.32", features = ["bundled"] }
serde = { version = "1", features = ["derive"] }
serde_json = "1"
tokio = { version = "1", features = ["full"] }
toml = "0.8"
urlencoding = "2"
