[package]
name = "screamer"
version = "0.1.0"
edition = "2021"
publish = false

[dependencies]
serde = { version = "1", features = ["derive"] }
serde_json = "1"
sha2 = "0.10"
hex = "0.4"
dirs = "*"
rusqlite = { version = "*", features = ["bundled"] }
hound = "3"
log = "0.4"
