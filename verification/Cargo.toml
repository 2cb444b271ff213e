[package]
name = "kqr"
version = "0.1.0"
edition = "2021"
publish = false

[dependencies]
humantime = "=2.4.0"
chrono = { version = "=0.4.45", default-features = false, features = ["std", "clock"] }
sha2 = "=0.11.1"
hex = "=0.4.3"
arrow = { version = "=60.1.0", default-features = false }
arrow-json = "=60.1.0"
arrow-csv = "=60.1.0"
parquet = { version = "=60.1.0", default-features = false, features = ["arrow"] }
comfy-table = "=7.2.2"
serde = { version = "=1.0.229", features = ["derive"] }
serde_json = "=1.0.154"
toml = "=1.1.8"
dirs = "=7.0.0"
clap = { version = "=4.6.7", features = ["derive", "env"] }
tokio = { version = "=1.54.1", features = ["rt-multi-thread", "macros", "sync"] }
rdkafka = { version = "=0.39.0", default-features = false, features = ["tokio"] }
futures = "=0.3.34"
async-trait = "=0.1.92"
anyhow = "=1.0.104"
thiserror = "=2.0.21"
tracing = "=0.1.44"
tracing-subscriber = { version = "=0.3.23", features = ["env-filter"] }
indicatif = "=0.18.6"
rustyline = "=19.0.0"

[dev-dependencies]
tempfile = "=3.27.0"
