[package]
name = "ironhive"
version = "0.1.0"
edition = "2021"
publish = false

[dependencies]
sysinfo = "*"
humansize = "*"
rand = "*"
whoami = "*"
tokio = { version = "*", features = ["full"] }
async-nats = "*"
async-scoped = { version = "*", features = ["use-tokio"] }
futures-util = "*"
bytes = "*"
serde = { version = "*", features = ["derive"] }
serde_json = "*"
tracing = "*"
tracing-subscriber = "*"
clap = { version = "*", features = ["derive"] }
directories = "*"
anyhow = "*"
reqwest = { version = "*", default-features = false }

[dev-dependencies]
humantime = "*"
