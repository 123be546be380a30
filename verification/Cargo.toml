[package]
name = "shutup-bot"
version = "0.1.0"
edition = "2021"
publish = false

[dependencies]
chrono = "=0.4.45"
chrono-tz = "=0.10.4"
lopdf = { version = "=0.46.0", default-features = false }
flate2 = "=1.1.10"
image = { version = "=0.25.10", default-features = false, features = ["png"] }
zip = { version = "=9.2.2", default-features = false, features = ["deflate"] }
teloxide = { version = "=0.17.0", default-features = false, features = ["macros", "rustls", "ctrlc_handler"] }
takecell = "=0.1.1"
tokio = { version = "=1.54.1", features = ["rt-multi-thread", "macros", "signal", "fs", "io-util"] }
reqwest = { version = "=0.12.28", default-features = false, features = ["rustls-tls"] }
clap = { version = "=4.6.7", features = ["derive", "env"] }
serde = { version = "=1.0.229", features = ["derive"] }
serde_json = "=1.0.154"
tracing = "=0.1.44"
tracing-subscriber = { version = "=0.3.23", features = ["env-filter"] }
tracing-journald = "=0.3.2"
expanduser = "=1.2.2"
anyhow = "=1.0.104"
thiserror = "=2.0.21"
dptree = "=0.5.1"
tower = { version = "=0.5.3", features = ["limit"] }
