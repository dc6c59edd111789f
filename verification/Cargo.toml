[package]
name = "dpilot"
version = "0.1.0"
edition = "2021"
publish = false

[dependencies]
minijinja = "2"
serde = { version = "1", features = ["derive"] }
serde_json = "1"
serde_yaml = "0.9"
anyhow = "1"
clap = { version = "4", features = ["derive"] }
console = "0.15"
indicatif = "0.17"
inquire = "0.7"
tokio = { version = "1", features = ["macros", "rt-multi-thread", "process", "io-util"] }
reqwest = { version = "0.12", default-features = false, features = ["blocking", "rustls-tls"] }
