[package]
name = "carbon"
version = "0.1.0"
edition = "2021"
publish = false

[dependencies]
regex = "1"
reqwest = { version = "0.12", default-features = false }
serde = { version = "1", features = ["derive"] }
thiserror = "*"
tokio = { version = "1", features = ["fs"] }
log = "0.4"

[dev-dependencies]
http = "1"
