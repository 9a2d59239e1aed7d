[package]
name = "stagelight"
version = "0.1.0"
edition = "2021"
publish = false

[dependencies]
artnet_protocol = "*"
futures = "0.3"
serde = { version = "1", features = ["derive"] }
serde_json = "1"
serialport = { version = "*", default-features = false }
tokio = { version = "1", features = ["macros", "rt-multi-thread"] }
warp = "0.3"
