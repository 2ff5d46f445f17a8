[package]
name = "bevy_fluent"
version = "0.1.0"
edition = "2021"
publish = false

[dependencies]
bevy = { version = "0.15", default-features = false, features = ["bevy_asset"] }
fluent = "0.16"
intl-memoizer = "0.5"
ron = "0.8"
serde = { version = "1", features = ["derive"] }
serde_yaml = "0.9"
unic-langid = { version = "0.9", features = ["serde"] }
