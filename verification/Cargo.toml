[package]
name = "codex_logic"
version = "0.1.0"
edition = "2021"
publish = false

[dependencies]
regex = "1"
serde = { version = "1", features = ["derive"] }
serde_json = "1"
url = "2"
http = "1"
uuid = { version = "1", features = ["v4"] }
tokio = { version = "1", features = ["process", "fs", "io-util", "rt", "rt-multi-thread", "macros", "time", "sync"] }
toml = "0.8"
libc = "0.2"
clap = { version = "4", features = ["derive"] }
anyhow = "1"
