[package]
name = "vaporforge"
version = "0.1.0"
edition = "2021"
publish = false

[dependencies]
crc32fast = "1"
steam_shortcuts_util = "1"
steamgriddb_api = "0.3"
steamlocate = "2"
walkdir = "2"
dirs = "5"
toml = "0.8"
serde = { version = "1", features = ["derive"] }
serde_json = "1"
eyre = "0.6"
color-eyre = { version = "0.6", default-features = false }
tracing = "0.1"
tracing-subscriber = { version = "0.3", features = ["env-filter"] }
tokio = { version = "1", features = ["rt-multi-thread", "time"] }
reqwest = { version = "0.12", default-features = false, features = ["rustls-tls", "json"] }
opener = "0.7"
image = { version = "0.25", default-features = false, features = ["png", "jpeg", "webp"] }
egui = "0.29"
egui_extras = { version = "0.29", default-features = false, features = ["image"] }
