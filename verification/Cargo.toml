[package]
name = "tunebeacon"
version = "0.2.0"
edition = "2021"
publish = false

[dependencies]
anyhow = "=1.0.104"
chrono = { version = "=0.4.45", default-features = false, features = ["std", "now", "serde"] }
clap = { version = "=4.6.7", default-features = false, features = ["std", "help", "usage", "error-context", "derive"] }
crossterm = { version = "=0.29.0", default-features = false, features = ["events", "event-stream"] }
dirs = "=6.0.0"
futures-util = { version = "=0.3.34", default-features = false, features = ["std"] }
hostname = "=0.4.2"
image = { version = "=0.25.10", default-features = false, features = ["bmp", "dds", "exr", "ff", "gif", "hdr", "ico", "jpeg", "png", "pnm", "qoi", "tga", "tiff", "webp"] }
md5 = "=0.8.1"
musicbrainz_rs = { version = "=0.14.0", default-features = false, features = ["async", "rustls"] }
ratatui = { version = "=0.30.2", default-features = false, features = ["crossterm"] }
ratatui-image = { version = "=10.0.8", default-features = false, features = ["crossterm", "tokio"] }
reqwest = { version = "=0.12.28", default-features = false, features = ["rustls-tls"] }
rumqttc = "=0.25.1"
serde = { version = "=1.0.229", features = ["derive"] }
serde_json = "=1.0.154"
sha2 = "=0.10.9"
tokio = { version = "=1.54.1", features = ["rt-multi-thread", "macros", "fs", "signal", "sync", "time", "net", "io-util"] }
tokio-util = { version = "=0.7.20", default-features = false }
toml = "=0.9.12"
tracing = { version = "=0.1.44", default-features = false, features = ["std"] }
tracing-subscriber = { version = "=0.3.23", default-features = false, features = ["std", "fmt", "env-filter"] }
tui-input = { version = "=0.15.5", default-features = false, features = ["crossterm"] }
unicode-normalization = "=0.1.26"
url = "=2.5.8"
zbus = { version = "=5.19.0", default-features = false, features = ["tokio"] }
