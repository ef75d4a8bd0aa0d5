[package]
name = "bevy_tinkerbox_editor"
version = "0.1.0"
edition = "2021"
publish = false

[dependencies]
bevy = { version = "0.17", default-features = false, features = ["bevy_image"] }
ron = "*"
serde = { version = "1", features = ["derive"] }
