[package]
name = "vision_lab"
version = "0.1.0"
edition = "2021"
publish = false

[dependencies]
uuid = { version = "1", features = ["v4"] }
bytes = "1"
image = { version = "0.25", default-features = false }
serde = { version = "1", features = ["derive"] }
serde_json = "1"
thiserror = "2"
tokio = { version = "1", features = ["sync", "rt", "rt-multi-thread", "macros", "time", "fs", "io-util"] }
async-trait = "0.1"
base64 = "0.22"
ringgrid = "*"
chess-corners = "*"
radsym = "*"
calib-targets = "*"
