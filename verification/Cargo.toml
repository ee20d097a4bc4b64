[package]
name = "traffic_engine"
version = "0.1.0"
edition = "2021"
publish = false

[dependencies]
clap = "=4.6.7"
reqwest = { version = "=0.13.5", features = ["blocking", "form"] }
serde = { version = "=1.0.229", features = ["derive"] }
serde_json = "=1.0.154"
