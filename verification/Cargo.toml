[package]
name = "dockshell"
version = "0.1.0"
edition = "2021"
publish = false

[dependencies]
bollard = { version = "=0.19.4", features = ["ssl"] }
futures-util = "=0.3.34"
keyring = "=3.6.3"
serde = { version = "=1.0.229", features = ["derive"] }
serde_json = "=1.0.154"
tokio = { version = "=1.54.1", features = ["process", "io-util", "sync", "rt", "macros", "net", "time", "fs"] }
