[package]
name = "guildkeeper"
version = "0.1.0"
edition = "2021"
publish = false

[dependencies]
lru = "*"
ulid = "*"
serde = { version = "1", features = ["derive"] }
mongodb = "*"
