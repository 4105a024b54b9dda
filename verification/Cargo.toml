[package]
name = "lazy_gateway"
version = "0.1.0"
edition = "2021"
publish = false

[dependencies]
bytes = "=1.12.1"
minecraft-protocol = "=0.1.0"
serde_json = "=1.0.154"
syn = "=1.0.57"
tokio = { version = "=1.54.1", features = ["net", "io-util"] }
uuid = "=0.7.4"
