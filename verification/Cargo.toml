[package]
name = "streak_tracker"
version = "0.1.0"
edition = "2021"
publish = false

[dependencies]
rusqlite = { version = "*", features = ["bundled"] }
rusqlite_migration = "*"
chrono = "*"
chrono-tz = "*"
axum = "*"
tokio = { version = "*", features = ["rt-multi-thread", "net", "sync", "time"] }
serde = { version = "*", features = ["derive"] }
serde_json = "*"
tracing = "*"
tracing-subscriber = { version = "*", features = ["env-filter"] }
crossbeam-channel = "*"
ctrlc = "*"
thiserror = "*"
embedded-graphics = "*"
embedded-hal = "*"
epd-waveshare = "*"
gpiocdev = "*"
gpiocdev-embedded-hal = "*"
linux-embedded-hal = "*"
profont = "*"
