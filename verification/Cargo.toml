[package]
name = "led_control"
version = "0.1.0"
edition = "2021"
publish = false

[dependencies]
chrono = "*"
cron = "*"
csscolorparser = "*"
serde = { version = "1", features = ["derive"] }
serde_yaml = "*"
tokio = { version = "1", features = ["full"] }
async-std = "*"
futures = "*"
lazy_static = "*"
rocket = "0.5"
diesel = { version = "2", features = ["postgres"] }
