[package]
name = "plato_feed"
version = "1.0.0"
edition = "2021"
publish = false

[dependencies]
anyhow = "*"
bytes = "*"
chrono = "*"
epub-builder = "*"
feed-rs = "*"
futures = "*"
log-panics = "*"
mime_guess = "*"
reqwest = { version = "*", default-features = false }
serde = { version = "*", features = ["derive"] }
serde_json = "*"
sha2 = "*"
signal-hook = "*"
tokio = { version = "*", features = ["rt-multi-thread", "macros", "sync"] }
toml = "*"
url = "*"
