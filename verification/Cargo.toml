[package]
name = "ecb_rates"
version = "0.1.0"
edition = "2021"
publish = false

[dependencies]
anyhow = "1"
chrono = { version = "0.4", features = ["serde"] }
clap = { version = "4", features = ["derive"] }
colored = "*"
quick-xml = "*"
reqwest = "*"
serde = { version = "1", features = ["derive"] }
serde_json = "1"
smol_str = { version = "*", features = ["serde"] }
tokio = { version = "1", features = ["rt"] }
