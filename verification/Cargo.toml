[package]
name = "gimmewire"
version = "0.1.0"
edition = "2021"
publish = false

[dependencies]
configparser = { version = "3", features = ["indexmap"] }
dirs = "*"
log = "0.4"
mongodb = "2"
serde = { version = "1", features = ["derive"] }
simple-error = "*"
tokio = { version = "1", features = ["sync"] }
