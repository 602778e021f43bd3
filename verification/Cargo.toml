[package]
name = "prom_cloudwatch"
version = "0.1.0"
edition = "2021"
publish = false

[dependencies]
chrono = "*"
prometheus-parse = "*"
reqwest = "*"
rusoto_cloudwatch = "*"
rusoto_core = "*"
tokio = { version = "*", features = ["macros", "rt-multi-thread"] }
