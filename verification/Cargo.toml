[package]
name = "backuper"
version = "0.1.0"
edition = "2021"
publish = false

[dependencies]
chrono = "0.4"
clokwerk = "0.4"
fs_extra = "1.3"
lazy_static = "1.5"
serde = { version = "1", features = ["derive"] }
toml = "0.8"
