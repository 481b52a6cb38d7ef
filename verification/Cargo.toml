[package]
name = "notifiers"
version = "0.1.0"
edition = "2021"
publish = false

[dependencies]
a2 = "*"
anyhow = "1"
async-std = { version = "1", features = ["attributes"] }
axum = "*"
femme = "2"
humantime = "2"
log = "0.4"
prometheus-client = "*"
reqwest = "*"
serde = { version = "1", features = ["derive"] }
serde_json = "1"
structopt = "0.3"
tide = "0.16"
tokio = { version = "1", features = ["net", "rt-multi-thread", "macros"] }
