[package]
name = "kanbus"
version = "0.1.0"
edition = "2021"
publish = false

[dependencies]
serde = { version = "=1.0.229", features = ["derive"] }
serde_json = "=1.0.154"
serde_yaml = "=0.9.34"
sha2 = "=0.10.9"
rand = "=0.8.8"
chrono = { version = "=0.4.45", features = ["serde"] }
owo-colors = "=4.4.0"
regex = "=1.13.1"
clap = { version = "=4.6.7", features = ["derive"] }
gherkin = "*"
