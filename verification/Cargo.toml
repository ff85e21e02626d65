[package]
name = "im_bridge"
version = "0.1.0"
edition = "2021"
publish = false

[dependencies]
anyhow = "1"
chbs = "*"
dashmap = "*"
figment = { version = "*", features = ["env"] }
internment = "*"
mongodb = "*"
once_cell = "1"
serde = { version = "1", features = ["derive"] }
shellwords = "*"
tokio = { version = "1", features = ["macros", "rt-multi-thread"] }
tracing = "*"
tracing-subscriber = "*"
