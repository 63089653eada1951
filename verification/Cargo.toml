[package]
name = "tedit"
version = "0.1.0"
edition = "2021"
publish = false

[dependencies]
crossterm = { version = "0.25", features = ["event-stream"] }
futures = "0.3"
futures-timer = "3"
tokio = { version = "1", features = ["macros", "rt-multi-thread"] }
