[package]
name = "qwanban"
version = "0.1.0"
edition = "2021"
publish = false

[dependencies]
serde = { version = "=1.0.229", features = ["derive"] }
serde_json = "=1.0.154"
toml = "=0.8.23"
sha2 = "=0.10.9"
tokio = { version = "=1.54.1", features = ["full"] }
async-trait = "=0.1.92"
clap = { version = "=4.6.7", features = ["derive"] }
anyhow = "=1.0.104"
thiserror = "=1.0.69"
parking_lot = "=0.12.5"
tracing = "=0.1.44"
tracing-subscriber = { version = "=0.3.23", features = ["env-filter", "fmt"] }
windows-sys = { version = "=0.61.2", features = ["Win32_Foundation", "Win32_Networking_WinSock"] }
