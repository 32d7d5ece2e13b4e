[package]
name = "timelens_core"
version = "0.1.0"
edition = "2021"
publish = false

[dependencies]
base64 = "=0.22.1"
rand = "0.8"
chrono = { version = "0.4", default-features = false, features = ["clock"] }
tokio = { version = "1", default-features = false, features = ["rt-multi-thread", "time", "macros"] }
tokio-tungstenite = "*"
futures-util = { version = "0.3", default-features = false, features = ["sink", "std"] }
http = "1"
directories = "*"
dialoguer = "*"
sysinfo = "=0.29.11"
active-win-pos-rs = "=0.8.4"
