[package]
name = "alacrite"
version = "0.1.0"
edition = "2021"
publish = false

[dependencies]
mdns-sd = "*"
local-ip-address = "*"
tokio = { version = "1", features = ["macros", "rt-multi-thread", "sync", "time"] }
