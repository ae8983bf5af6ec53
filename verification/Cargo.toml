[package]
name = "motion"
version = "0.1.0"
edition = "2021"
publish = false

[dependencies]
anyhow = "1"
clap = "4"
log = "0.4"
md5 = "0.7"
pretty_env_logger = "0.5"
serde = { version = "1", features = ["derive"] }
serde_yaml = "0.9"
snafu = "0.7"
tokio = { version = "1", features = ["io-util", "macros", "net", "rt-multi-thread", "sync"] }
