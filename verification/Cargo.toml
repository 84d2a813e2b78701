[package]
name = "flow_controller"
version = "0.1.0"
edition = "2021"
publish = false

[dependencies]
micropb = "*"
hex = "*"
anyhow = "*"
btleplug = "*"
clap = { version = "4", features = ["derive", "env"] }
dotenvy = "*"
tokio = { version = "1", features = ["macros", "rt-multi-thread", "time"] }
uuid = "1"
