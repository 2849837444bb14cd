[package]
name = "multiverse9core"
version = "0.1.0"
edition = "2021"
publish = false

[dependencies]
clap = { version = "4", features = ["derive"] }
fern = "0.6"
log = "0.4"
redis = "0.23"
serde = { version = "1", features = ["derive"] }
serde_json = "1"
ulid = "1"
