[package]
name = "libtmux"
version = "0.1.0"
edition = "2021"
publish = false

[dependencies]
caseless = "0.2"
regex = "1"
schemars = "1"
serde = { version = "1", features = ["derive"] }
serde_json = "1"
tokio = { version = "1", features = ["rt", "rt-multi-thread", "macros", "process", "time", "io-util", "sync"] }
