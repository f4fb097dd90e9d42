[package]
name = "nirdosha-hi"
version = "0.1.0"
edition = "2021"
publish = false

[dependencies]
async-trait = "=0.1.92"
base64 = "=0.22.1"
chrono = { version = "=0.4.45", default-features = false, features = ["clock"] }
proc-macro2 = { version = "=1.0.107", features = ["span-locations"] }
quote = "=1.0.47"
reqwest = { version = "=0.12.28", default-features = false, features = ["blocking", "json"] }
rskafka = "=0.6.0"
rusqlite = { version = "=0.41.1", features = ["bundled"] }
serde = { version = "=1.0.229", features = ["derive"] }
serde_jcs = "=0.2.0"
serde_json = { version = "=1.0.154", features = ["preserve_order"] }
sha2 = "=0.10.9"
syn = { version = "=2.0.119", features = ["full", "visit", "extra-traits"] }
tokio = { version = "=1.54.1", features = ["rt-multi-thread", "sync", "time"] }
toml = "=0.8.23"
walkdir = "=2.5.0"
