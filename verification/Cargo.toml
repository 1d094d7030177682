[package]
name = "soundboard"
version = "0.1.0"
edition = "2021"
publish = false

[dependencies]
dirs = "*"
elgato-streamdeck = { version = "*", features = ["async"] }
hound = "*"
image = "*"
pipewire = "*"
serde = { version = "*", features = ["derive"] }
serde_json = "*"
tokio = { version = "*", features = ["full"] }
