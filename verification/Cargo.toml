[package]
name = "anime_pic_manage"
version = "0.1.0"
edition = "2021"
publish = false

[dependencies]
uuid = { version = "1", features = ["v4"] }
serde = { version = "1", features = ["derive"] }
serde_json = "1"
chrono = "0.4"
reqwest = { version = "0.12", default-features = false }
sha2 = "0.10"
zip = { version = "*", default-features = false }
rusqlite = { version = "*", features = ["bundled"] }
thiserror = "*"
