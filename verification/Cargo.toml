[package]
name = "streamkeep"
version = "0.1.0"
edition = "2021"
publish = false

[dependencies]
m3u8-rs = "6"
url = "2"
uuid = { version = "1", features = ["v4"] }
time = "0.3"
reqwest = { version = "0.12", default-features = false, features = ["stream"] }
futures-util = "0.3"
serde = { version = "1", features = ["derive"] }
serde_json = "1"
thiserror = "2"
ts-to-mp4 = "*"
