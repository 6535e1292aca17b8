[package]
name = "pendora"
version = "0.1.0"
edition = "2021"
publish = false

[dependencies]
md5 = "*"
brotli = "*"
rosu-map = "*"
rosu-pp = "*"
rosu-v2 = "*"
serde = { version = "*", features = ["derive"] }
serde_json = "*"
thiserror = "*"
tokio = { version = "*", features = ["rt-multi-thread", "macros", "time"] }
reqwest = { version = "*", default-features = false }
dotenvy = "*"
anyhow = "*"
chrono = "*"
minacalc-rs = "*"
ssrrr = "*"
