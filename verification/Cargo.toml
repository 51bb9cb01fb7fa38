[package]
name = "plex_downloader"
version = "0.1.0"
edition = "2021"
publish = false

[dependencies]
actix-rt = "*"
actix-web = "*"
clap = "*"
crossbeam = "*"
env_logger = "*"
log = "*"
prometheus = "*"
serde = { version = "*", features = ["derive"] }
serde_json = "*"
ssh2 = "*"
urlencoding = "*"
