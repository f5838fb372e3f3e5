[package]
name = "advisorygraphen"
version = "0.1.0"
edition = "2021"
publish = false

[dependencies]
higher-graphen-core = "*"
higher-graphen-reasoning = "*"
serde = { version = "1", features = ["derive"] }
serde_json = "1"
chrono = "0.4"
