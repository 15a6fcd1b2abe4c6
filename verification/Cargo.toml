[package]
name = "goldcap_companion"
version = "1.13.0"
edition = "2021"
publish = false

[dependencies]
serde = { version = "1", features = ["derive"] }
serde_json = "1"
reqwest = { version = "0.12", default-features = false, features = ["json", "rustls-tls"] }
tokio = { version = "1", features = ["rt-multi-thread", "macros", "time", "sync"] }
mlua = { version = "0.10", features = ["lua54", "vendored"] }
winreg = "0.52"
