[package]
name = "debateai_core"
version = "0.1.0"
edition = "2021"
publish = false

[dependencies]
regex = "=1.13.1"
serde = { version = "=1.0.229", features = ["derive"] }
toml = "=0.9.12"
thiserror = "=2.0.21"
async-openai = { version = "=0.42.2", features = ["chat-completion"] }
reqwest = { version = "=0.13.5", default-features = false }
tokio = { version = "=1.54.1", features = ["macros", "rt-multi-thread", "time"] }
clap = { version = "=4.6.7", features = ["derive"] }
colored = "=3.1.1"
dotenvy = "=0.15.7"
kokoro-tiny = { version = "=0.1.0", default-features = false }
