[package]
name = "ash"
version = "0.1.0"
edition = "2021"
publish = false

[dependencies]
anyhow = "1"
die = "*"
dirs = "*"
env_logger = "*"
futures = "0.3"
rand = "0.8"
rusqlite = "*"
rustkov = "*"
serde = { version = "1", features = ["derive"] }
serde_derive = "1"
tokio = { version = "1", features = ["macros", "rt-multi-thread"] }
tokio-xmpp = ">=3.0, <3.4"
toml = "*"
xmpp-parsers = "0.19"
