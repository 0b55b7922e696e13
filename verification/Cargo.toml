[package]
name = "page_harvest"
version = "0.1.0"
edition = "2021"
rust-version = "1.95"
publish = false

[dependencies]
scraper = "=0.29.0"
regex = "=1.13.1"
url = { version = "=2.5.8", features = ["serde"] }
clap = { version = "=4.6.7", features = ["derive"] }
eyre = "=0.6.14"
futures = "=0.3.34"
playwright = { version = "=0.0.20", features = ["only-for-docs-rs"] }
rig-core = { version = "=0.31.0", features = ["derive"] }
serde = { version = "=1.0.229", features = ["derive"] }
tokio = { version = "=1.54.1", features = ["rt", "rt-multi-thread", "macros", "time"] }
tracing = "=0.1.44"
tracing-subscriber = { version = "=0.3.23", features = ["env-filter"] }
