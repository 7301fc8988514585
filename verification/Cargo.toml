[package]
name = "updater_core"
version = "0.1.0"
edition = "2021"
publish = false

[dependencies]
sha1 = "*"
hex = "*"
tokio = { version = "*", features = ["rt-multi-thread", "macros", "time", "sync"] }
reqwest = { version = "*", default-features = false }
futures-util = "*"
serde = { version = "*", features = ["derive"] }
serde_json = "*"
