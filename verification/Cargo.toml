[package]
name = "media_downloader"
version = "0.1.0"
edition = "2021"
publish = false

[dependencies]
regex = "=1.13.1"
reqwest = { version = "=0.12.28", default-features = false, features = ["cookies"] }
chrono = { version = "=0.4.45", default-features = false, features = ["std"] }
imagesize = "=0.13.0"
serde_json = "=1.0.154"
tokio = { version = "=1.54.1", features = ["rt-multi-thread", "macros", "fs", "process", "io-util", "sync", "time"] }
anyhow = "=1.0.104"
futures = "=0.3.34"
sqlx = { version = "=0.8.6", default-features = false, features = ["sqlite", "runtime-tokio"] }
uuid = { version = "=1.29.0", features = ["v4"] }
chromiumoxide = "*"
little_exif = "*"
dotenvy = "*"
csv = "*"
