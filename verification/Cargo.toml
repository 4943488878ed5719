[package]
name = "hoststate"
version = "0.1.0"
edition = "2021"
publish = false

[dependencies]
base64 = "0.22"
serde = { version = "1", features = ["derive"] }
serde_json = "1"
sysinfo = "*"
whoami = "*"
home = "*"
tokio = { version = "1", features = ["process", "rt-multi-thread", "macros"] }
