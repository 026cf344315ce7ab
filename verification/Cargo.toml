[package]
name = "devdeck"
version = "0.1.0"
edition = "2021"
publish = false

[dependencies]
aes-gcm = "0.10"
argon2 = "0.5"
rand = "0.8"
hex = "0.4"
serde = { version = "1", features = ["derive"] }
serde_json = "1"
rusqlite = { version = "0.32", features = ["bundled"] }
git2 = { version = "0.19", default-features = false }
ureq = "2"
notify-debouncer-mini = "0.4"
