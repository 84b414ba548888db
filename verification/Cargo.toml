[package]
name = "charist"
version = "0.1.0"
edition = "2021"
publish = false

[dependencies]
regex = "=1.13.1"
dirs = "=7.0.0"
tantivy = { version = "=0.27.0", default-features = false }
serde = { version = "=1.0.229", features = ["derive"] }
ciborium = "=0.2.2"
reqwest = { version = "=0.13.5", default-features = false, features = ["json"] }
tokio = { version = "=1.54.1", features = ["rt", "net", "time"] }
