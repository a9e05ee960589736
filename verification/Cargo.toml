[package]
name = "wol_bridge"
version = "0.1.0"
edition = "2021"
publish = false

[dependencies]
async-trait = "0.1"
once_cell = "1"
serenity = { version = "0.10", features = ["unstable_discord_api"] }
tokio = { version = "1", features = ["net", "rt", "macros"] }
