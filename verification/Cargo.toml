[package]
name = "ytm"
version = "0.1.0"
edition = "2021"
publish = false

[dependencies]
toml = "*"
ratatui = "*"
crossterm = { version = "*", features = ["event-stream"] }
serde = { version = "1", features = ["derive"] }
clap = { version = "4", features = ["derive"] }
tokio = { version = "1", features = ["full"] }
futures = "0.3"
color-eyre = "*"
directories = "*"
image = { version = "*", default-features = false, features = ["jpeg", "png", "webp"] }
reqwest = { version = "*", default-features = false }
souvlaki = { version = "*", default-features = false, features = ["use_zbus"] }
libmpv2 = "6"
libmpv2-sys = "*"
tracing = "0.1"
tracing-appender = "0.2"
tracing-subscriber = { version = "0.3", features = ["env-filter"] }
