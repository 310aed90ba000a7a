[package]
name = "date_picker"
version = "0.1.0"
edition = "2021"
publish = false

[dependencies]
chrono = "0.4"
serde = { version = "1", features = ["derive"] }
serde_json = "1"
async-std = "1"
directories-next = "2"
once_cell = "1"
iced = { version = "0.12", default-features = false }
iced_aw = { version = "0.9", default-features = false, features = ["card", "modal", "date_picker"] }
iced_style = "0.12"
