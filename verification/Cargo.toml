[package]
name = "pystamps"
version = "0.1.0"
edition = "2021"
publish = false

[dependencies]
serde = { version = "1", features = ["derive"] }
serde_json = "1"
thiserror = "*"
num-complex = "*"
rustfft = "*"
delaunator = "*"
askama = "*"
axum = "*"
tokio = { version = "1", features = ["macros", "rt-multi-thread", "net", "process", "sync", "fs"] }
uuid = { version = "1", features = ["v4"] }
