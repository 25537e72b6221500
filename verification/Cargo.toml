[package]
name = "conduit"
version = "0.1.0"
edition = "2021"
publish = false

[dependencies]
actix-web = "4"
argon2 = "0.5"
dashmap = "6"
once_cell = "1"
rand = "0.8"
redb = "2"
serde = { version = "1", features = ["derive"] }
thiserror = "2"
tokio = { version = "1", features = ["sync", "time", "rt", "macros"] }
tokio-stream = "0.1"
tracing = "0.1"
tracing-subscriber = "0.3"
