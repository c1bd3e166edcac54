[package]
name = "rustodian"
version = "0.1.0"
edition = "2021"
publish = false

[dependencies]
uuid = { version = "1", features = ["v4"] }
serde_json = "1"
toml = "0.8"
shlex = "1"
globset = "0.4"
chrono = { version = "0.4", default-features = false, features = ["clock", "std"] }
anyhow = "1"
clap = { version = "4", features = ["derive", "env"] }
comfy-table = "7"
rusqlite = { version = "0.32", features = ["bundled"] }
r2d2 = "0.8"
r2d2_sqlite = "0.25"
git2 = { version = "0.19", default-features = false }
ignore = "0.4"
reqwest = { version = "0.12", default-features = false, features = ["json", "rustls-tls"] }
tokio = { version = "1", features = ["rt-multi-thread"] }
flate2 = "1"
tar = "0.4"
tracing = "0.1"
tracing-subscriber = { version = "0.3", features = ["env-filter"] }
serde = { version = "1", features = ["derive"] }
nix = { version = "0.29", features = ["signal", "process"] }
async-trait = "0.1"
