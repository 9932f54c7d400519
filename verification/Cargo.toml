[package]
name = "rtop_rust"
version = "0.1.0"
edition = "2021"
publish = false

[dependencies]
ratatui = "0.25"
crossterm = "0.27"
nvml-wrapper = "0.9"
psutil = "3"
heim = { version = "0.1.0-rc.1", features = ["cpu"] }
tokio = { version = "1", features = ["macros", "rt-multi-thread"] }
