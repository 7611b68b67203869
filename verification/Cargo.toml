[package]
name = "site_sync"
version = "0.1.0"
edition = "2021"
publish = false

[dependencies]
anyhow = "1"
clap = { version = "4", features = ["derive"] }
flate2 = "1"
fs_extra = "1"
mime_guess = "2"
nu-ansi-term = "*"
opendal = { version = "*", default-features = false, features = ["services-oss", "services-memory", "layers-mime-guess"] }
pushover-rs = "*"
reqwest = "*"
serde = { version = "1", features = ["derive"] }
sysinfo = "*"
tar = "0.4"
tokio = { version = "1", features = ["full"] }
toml = "*"
tracing = "0.1"
tracing-subscriber = { version = "0.3", features = ["chrono"] }
walkdir = "2"
