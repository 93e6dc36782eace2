[package]
name = "wx-cli"
version = "0.1.0"
edition = "2021"
publish = false

[dependencies]
anyhow = "1"
chrono = "0.4"
libc = "0.2"
md5 = "0.7"
rusqlite = { version = "0.32", features = ["bundled"] }
serde_json = "1"
