[package]
name = "esp32_logger"
version = "0.1.0"
edition = "2021"
publish = false

[dependencies]
chrono = "*"
ctrlc = "*"
foxglove = "*"
schemars = "*"
serde = { version = "*", features = ["derive"] }
serde_json = "*"
tokio = { version = "*", features = ["net", "rt-multi-thread", "macros"] }
