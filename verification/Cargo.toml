[package]
name = "komrad"
version = "0.1.0"
edition = "2021"
publish = false

[dependencies]
owo-colors = "4"
uuid = { version = "1", features = ["v7"] }
tokio = { version = "1", features = ["full"] }
serde_json = "1"
figlet-rs = "0.1"
palette = "0.7"
clap = { version = "4", features = ["derive"] }

[dev-dependencies]
chrono = "0.4"
