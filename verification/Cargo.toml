[package]
name = "xlsx_update"
version = "0.1.0"
edition = "2021"
publish = false

[dependencies]
anyhow = "1"
bytes = "1"
clap = { version = "4", features = ["derive"] }
reqwest = "0.12"
rss = "2"
serde_json = "1"
tokio = { version = "1", features = ["rt-multi-thread", "macros"] }

[dev-dependencies]
lenient_semver = "0.4"
semver = "1"
