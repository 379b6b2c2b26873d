[package]
name = "moon_upgrade"
version = "0.1.0"
edition = "2021"
publish = false

[dependencies]
indexmap = "*"
anyhow = "*"
clap = { version = "*", features = ["derive"] }
colored = "*"
console = "*"
ctrlc = "*"
dialoguer = "*"
futures = "*"
reqwest = { version = "*", default-features = false, features = ["blocking", "json"] }
self-replace = "*"
serde = { version = "*", features = ["derive"] }
serde_json = "*"
tempfile = "*"
tokio = { version = "*", features = ["rt-multi-thread", "macros", "fs", "io-util", "signal"] }
zip = { version = "*", default-features = false }
