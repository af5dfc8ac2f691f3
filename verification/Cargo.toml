[package]
name = "analyze_screen"
version = "0.1.0"
edition = "2021"
publish = false

[dependencies]
anyhow = "1"
base64 = "0.22"
humantime = "2"
image = { version = "0.25", default-features = false, features = ["png"] }
reqwest = { version = "0.12", default-features = false, features = ["json", "rustls-tls"] }
serde_json = "1"
tiny_http = "0.12"
tokio = { version = "1", features = ["fs", "macros", "process", "rt-multi-thread", "time"] }
ureq = { version = "2", features = ["json"] }
wait-timeout = "0.2"
