[package]
name = "gau_rs"
version = "0.1.0"
edition = "2021"
publish = false

[dependencies]
clap = { version = "4", features = ["derive"] }
reqwest = { version = "0.12" }
rlimit = { version = "0.10" }
serde_json = { version = "1" }
tokio = { version = "1", features = ["full"] }
