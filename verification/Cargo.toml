[package]
name = "shelldon"
version = "0.1.0"
edition = "2021"
publish = false

[dependencies]
regex = "1"
async-openai = "0.23"
async-stream = "0.3"
atty = "0.2"
clap = { version = "4", features = ["derive"] }
comfy-table = "7"
derive_more = "0.99"
dialoguer = "0.11"
dirs = "5"
futures = "0.3"
genai = "0.1"
serde = { version = "1", features = ["derive"] }
serde_json = "1"
tokio = { version = "1", features = ["full"] }
