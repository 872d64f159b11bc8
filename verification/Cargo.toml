[package]
name = "keel"
version = "0.1.0"
edition = "2021"
publish = false

[dependencies]
owo-colors = "=4.4.0"
syntect = { version = "=5.3.0", default-features = false, features = ["default-fancy"] }
terminal_size = "=0.4.4"
anyhow = "1"
chrono = "0.4"
clap = { version = "4", features = ["derive"] }

[dev-dependencies]
serde_json = "=1.0.154"
regex = "=1.13.1"
