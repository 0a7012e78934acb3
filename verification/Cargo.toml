[package]
name = "web_transport"
version = "0.6.6"
edition = "2021"
publish = false

[dependencies]
addin1c = "*"
futures-util = { version = "0.3", features = ["sink"] }
nix = { version = "*", features = ["process", "signal"] }
serde = { version = "1", features = ["derive"] }
serde_json = "1"
tokio = { version = "1", features = ["full"] }
tokio-tungstenite = "*"
tokio-util = "0.7"
tracing = "0.1"
tracing-subscriber = { version = "0.3", features = ["env-filter"] }
uuid = { version = "1", features = ["v4"] }
windows-sys = { version = "0.59", features = ["Win32_Foundation", "Win32_System_Threading"] }
