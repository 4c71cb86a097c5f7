[package]
name = "birthday_card"
version = "0.1.0"
edition = "2021"
publish = false

[dependencies]
bevy = { version = "0.17", default-features = false }
bevy_asset_loader = { version = "0.24", features = ["2d"] }
bevy_light_2d = "0.8"
bevy_rand = { version = "0.12", features = ["wyrand"] }
rand_core = "0.9"
