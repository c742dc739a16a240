[package]
name = "yandex-music-likes-to-evernote"
version = "0.1.0"
edition = "2021"
publish = false

[dependencies]
anyhow = "=1.0.104"
chrono = "=0.4.45"
clap = { version = "=4.6.7", features = ["derive", "env"] }
evernote = "=0.1.2"
html-escape = "=0.3.0"
md5 = "=0.8.1"
reqwest = { version = "=0.13.5", default-features = false, features = ["blocking", "form", "json"] }
serde = { version = "=1.0.229", features = ["derive"] }
serde_json = "1"
tempfile = "=3.27.0"
thrift = "=0.17.0"
tokio = { version = "=1.54.1", features = ["rt-multi-thread", "time"] }
tracing = "0.1"
tracing-subscriber = "0.3"
url = "=2.5.8"
yandex-music = "=0.7.0"
