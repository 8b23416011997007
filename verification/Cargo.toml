[package]
name = "crustly"
version = "0.1.0"
edition = "2021"
publish = false

[dependencies]
anyhow = "1"
arboard = { version = "3", default-features = false }
async-trait = "0.1"
chrono = "0.4"
crossterm = "*"
dirs = "*"
futures = "0.3"
llama-cpp-2 = { version = "0.1.156", default-features = false }
rand = "*"
ratatui = { version = "*", default-features = false, features = ["crossterm"] }
ratatui-textarea = "*"
reqwest = { version = "0.12", default-features = false, features = ["json", "stream"] }
serde = { version = "1", features = ["derive"] }
serde_json = "1"
tokio = { version = "1", features = ["rt", "rt-multi-thread", "macros", "sync", "time", "fs"] }
tokio-stream = "0.1"
tracing = "0.1"
uuid = { version = "1", features = ["v4"] }
