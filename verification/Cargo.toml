[package]
name = "ioc"
version = "0.1.0"
edition = "2021"
publish = false

[dependencies]
tokio = { version = "=1.54.1", features = ["full"] }
tokio-util = "=0.7.20"
tokio-stream = { version = "=0.1.19", features = ["sync"] }
futures = "=0.3.34"
futures-util = "=0.3.34"
serde = { version = "=1.0.229", features = ["derive"] }
serde_json = "=1.0.154"
tracing = "=0.1.44"
tracing-subscriber = { version = "=0.3.23", features = ["env-filter"] }
axum = { version = "=0.6.20", features = ["ws"] }
tower-http = { version = "=0.4.4", features = ["fs", "trace"] }
config = { version = "=0.15.27", default-features = false, features = ["toml", "yaml", "json"] }
rppal = { version = "=0.17.1", features = ["hal"] }
embedded-hal = "=1.0.0"
linux-embedded-hal = "=0.5.0"
pwm-pca9685 = "=1.0.0"
lsm303dlhc = "=0.2.0"
embedded-graphics = "=0.8.2"
jpeg-encoder = "=0.7.1"
peroxide = { version = "=0.34.7", default-features = false }
