[package]
name = "xeonitte"
version = "0.1.0"
edition = "2021"
rust-version = "1.95"
publish = false

[dependencies]
url = "=2.5.8"
teloxide = { version = "=0.12.2", features = ["webhooks-axum"] }
tokio = { version = "=1.54.1", features = ["rt-multi-thread", "macros"] }
dptree = "=0.3.0"
crates_io_api = "=0.8.2"
log = "0.4"
pretty_env_logger = "=0.4.0"
takecell = "=0.1.1"
