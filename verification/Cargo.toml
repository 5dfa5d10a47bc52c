[package]
name = "prompt"
version = "0.1.0"
edition = "2021"
publish = false

[dependencies]
regex = "1"
serde_yaml = "0.9"
serde = { version = "1", features = ["derive"] }
serde_json = "1"
tiktoken-rs = "*"
rustc-serialize = "0.3"
tokio = { version = "1", features = ["full"] }
reqwest = { version = "0.11", features = ["json"] }
reqwest-eventsource = "0.4"
clap = { version = "4", features = ["derive"] }
notify = "6"
dirs = "5"
rustyline = "11"
futures = "0.3"
futures-util = "0.3"
uuid = { version = "1", features = ["serde"] }
log = "0.4"
