[package]
name = "kimi_subscription_router"
version = "0.1.0"
edition = "2021"
publish = false

[dependencies]
anyhow = "=1.0.104"
chrono = { version = "=0.4.45", default-features = false, features = ["clock", "std"] }
clap = { version = "=4.6.7", default-features = false, features = ["derive", "std", "help", "usage"] }
eframe = { version = "=0.31.1", default-features = false, features = ["default_fonts", "glow", "x11"] }
fs2 = "=0.4.3"
rand = "=0.8.8"
reqwest = { version = "=0.12.28", default-features = false, features = ["rustls-tls"] }
serde = "=1.0.229"
serde_json = "=1.0.154"
subtle = "=2.6.1"
tiny_http = "=0.12.0"
tokio = { version = "=1.54.1", features = ["io-std", "io-util", "macros", "process", "rt-multi-thread", "sync", "time"] }
tracing = "=0.1.44"
tracing-subscriber = { version = "=0.3.23", default-features = false, features = ["env-filter", "fmt"] }
