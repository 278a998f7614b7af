[package]
name = "hoststats"
version = "0.1.0"
edition = "2021"
publish = false

[dependencies]
xmltojson = "*"
serde_json = "*"
serde = { version = "*", features = ["derive"] }
sysinfo = "*"
tokio = { version = "*", features = ["process", "rt-multi-thread", "macros", "io-util"] }
