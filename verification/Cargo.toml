[package]
name = "astrbot_launcher"
version = "0.1.0"
edition = "2021"
publish = false

[dependencies]
semver = "1"
toml = "*"
reqwest = { version = "*", default-features = false, features = ["json"] }
serde = { version = "1", features = ["derive"] }
serde_json = "1"
redb = "*"
tokio = { version = "1", features = ["rt-multi-thread", "process", "sync", "time", "macros", "io-util"] }
futures-util = "0.3"
log = "0.4"
once_cell = "1"
