[package]
name = "legacy_motd"
version = "0.1.0"
edition = "2021"
publish = false

[dependencies]
async-minecraft-ping = "*"
resolve = "*"
tokio = { version = "*", features = ["macros", "rt-multi-thread"] }
