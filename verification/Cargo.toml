[package]
name = "cuchabot"
version = "0.1.0"
edition = "2021"
publish = false

[dependencies]
rand = "=0.8.8"
scraper = "=0.19.1"
num-format = "=0.4.4"
poise = "=0.6.2"
rosu-v2 = "=0.9.0"
tokio = { version = "=1.54.1", features = ["rt-multi-thread", "macros", "time"] }
tracing = "=0.1.44"
reqwest = { version = "=0.12.28", default-features = false, features = ["rustls-tls"] }
ollama-rs = { version = "=0.2.2", features = ["chat-history"] }
dotenv = "=0.15.0"
anyhow = "=1.0.104"
chatgpt_rs = "1"
