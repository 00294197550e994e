[package]
name = "rpg_raid_shop"
version = "0.1.0"
edition = "2021"
publish = false

[dependencies]
bevy = { version = "=0.18.1", default-features = false }
rand = "=0.10.3"
serde = { version = "=1.0.229", features = ["derive"] }
spacetimedb = "=2.0.5"
