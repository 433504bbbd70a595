[package]
name = "looper_engine"
version = "0.1.0"
edition = "2021"
publish = false

[dependencies]
rtrb = "0.3"
clap = { version = "4", features = ["derive"] }
cpal = "0.17"
log = "0.4"
serde = { version = "1", features = ["derive"] }
tauri = { version = "2", default-features = false }
