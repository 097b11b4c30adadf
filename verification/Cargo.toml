[package]
name = "entrycore"
version = "0.1.0"
edition = "2021"
publish = false

[dependencies]
serde = { version = "=1.0.229", features = ["derive"] }
serde_json = "=1.0.154"
syn = { version = "=2.0.119", features = ["full"] }
zip = { version = "=2.6.1", default-features = false, features = ["deflate"] }
rand = "=0.8.8"
thiserror = "=2.0.21"
flate2 = "=1.1.10"
tar = { version = "0.4", default-features = false }
