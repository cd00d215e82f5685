[package]
name = "voice_bridge"
version = "0.1.0"
edition = "2021"
publish = false

[dependencies]
audiopus = "=0.2.0"
songbird = { version = "=0.5.0", default-features = false, features = ["driver", "receive", "rustls", "tungstenite"] }
tokio = { version = "*", features = ["full"] }
tsproto-packets = "=0.1.0"
