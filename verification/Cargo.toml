[package]
name = "jlfine"
version = "0.1.0"
edition = "2021"
publish = false

[dependencies]
url = "=2.5.8"
uuid = { version = "=1.29.0", features = ["v4"] }
rtrb = "=0.3.6"
image = { version = "=0.25.10", default-features = false, features = ["jpeg", "png", "gif", "webp", "bmp"] }
serde = { version = "1", features = ["derive"] }
serde_json = "=1.0.154"
reqwest = { version = "=0.12.28", default-features = false, features = ["blocking", "json", "rustls-tls"] }
tokio = { version = "=1.54.1", features = ["rt-multi-thread", "macros", "sync", "time"] }
tracing = "0.1"
anyhow = "1"
thiserror = "2"
directories = "=6.0.0"
keyring = { version = "=3.6.3", default-features = false, features = ["apple-native", "async-secret-service", "async-io", "crypto-rust"] }
symphonia = { version = "=0.5.5", features = ["all"] }
alsa = "0.9"
libmpv2 = "5"
