[package]
name = "nah"
version = "0.1.0"
edition = "2021"
publish = false

[dependencies]
serde_json = "1"
serde = { version = "1", features = ["derive"] }
uuid = { version = "1", features = ["v4"] }
reqwest = { version = "0.12", default-features = false, features = ["rustls-tls"] }
tokio = { version = "1", features = ["rt", "net", "time"] }
clap = { version = "4", features = ["derive"] }
rustyline = "*"
chrono = "0.4"
bytes = "1"
async-stream = "0.3"
futures-core = "0.3"
