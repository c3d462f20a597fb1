[package]
name = "tray-host"
version = "0.1.0"
edition = "2021"
publish = false

[dependencies]
clap = { version = "4", features = ["derive"] }
clap_complete = "4"
config = { version = "*", default-features = false, features = ["toml"] }
dirs = "*"
log = "0.4"
png = "*"
serde = { version = "1", features = ["derive"] }
simplelog = "*"
system-tray = "*"
tokio = { version = "1", features = ["rt-multi-thread", "macros", "net", "io-util", "process", "sync"] }
