[package]
name = "githubdw"
version = "0.2.3"
edition = "2021"
publish = false

[dependencies]
chrono = "0.4"
chrono-tz = "*"
clap = { version = "4", features = ["derive"] }
dirs = "*"
rmcp = { version = "0.12", features = ["server", "transport-io"] }
rusqlite = { version = "*", features = ["bundled"] }
rusqlite_migration = "*"
schemars = "1"
serde = { version = "1", features = ["derive"] }
serde_json = "1"
thiserror = "2"
tokio = { version = "1", features = ["rt-multi-thread", "sync", "macros"] }
mixtape-core = { version = "*", features = ["bedrock"] }
