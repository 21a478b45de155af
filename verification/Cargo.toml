[package]
name = "discord_playerlist"
version = "0.1.0"
edition = "2021"
publish = false

[dependencies]
anyhow = "1"
chrono = "0.4"
confy = "0.5"
flexi_logger = "0.25"
log = "0.4"
reqwest = { version = "0.11", default-features = false, features = ["json", "rustls-tls"] }
serde = { version = "1", features = ["derive"] }
serenity = "0.11"
tabular = "0.2"
timeago = "0.4"
tokio = { version = "1", features = ["macros", "rt-multi-thread", "time"] }
warp = "0.3"
