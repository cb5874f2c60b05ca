[package]
name = "omcp"
version = "0.1.0"
edition = "2021"
publish = false

[dependencies]
serde = { version = "=1.0.229", features = ["derive"] }
serde_json = "=1.0.151"
reqwest = { version = "=0.13.5", default-features = false }
tokio = { version = "=1.53.2", features = ["macros", "rt-multi-thread", "sync", "time", "process", "io-util", "io-std"] }
async-trait = "=0.1.92"
clap = { version = "=4.6.7", features = ["derive"] }
log = "=0.4.34"
