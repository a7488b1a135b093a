[package]
name = "gitflow"
version = "0.1.0"
edition = "2021"
publish = false

[dependencies]
clap = { version = "=4.6.7", features = ["derive"] }
colored = "=2.2.0"
dirs = "=5.0.1"
git2 = { version = "=0.21.0", default-features = false }
log = "=0.4.34"
octocrab = "=0.47.1"
serde = { version = "=1.0.229", features = ["derive"] }
serde_json = "=1.0.154"
thiserror = "=1.0.69"
tokio = { version = "=1.54.1", features = ["rt-multi-thread"] }
tracing-subscriber = { version = "=0.3.23", features = ["env-filter"] }
url = "=2.5.8"

[dev-dependencies]
tempfile = "=3.27.0"
