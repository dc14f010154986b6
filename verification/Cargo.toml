[package]
name = "hybridsearch"
version = "0.1.0"
edition = "2021"
publish = false

[dependencies]
serde = { version = "1", features = ["derive"] }
serde_json = "1"
url = "2"
percent-encoding = "2"
quick-xml = "0.37"
reqwest = { version = "0.12", default-features = false, features = ["json", "gzip", "rustls-tls"] }
tokio = { version = "1", features = ["macros", "rt", "time", "sync"] }
rmcp = { version = "*", features = ["server", "macros", "transport-io"] }
schemars = "1"
futures = "0.3"
uuid = { version = "1", features = ["v4"] }
chrono = "0.4"
anyhow = "1"
tracing = "0.1"
tracing-subscriber = { version = "0.3", features = ["env-filter", "fmt"] }
async-trait = "0.1"
thiserror = "2"
