[package]
name = "hackernews_tui"
version = "0.1.0"
edition = "2021"
publish = false

[dependencies]
cursive = { version = "=0.21.1", default-features = false, features = ["crossterm-backend", "toml"] }
env_logger = "=0.11.11"
log = "=0.4.34"
serde_json = "=1.0.154"
substring = "=1.4.5"
ureq = "=2.12.1"
webbrowser = "=1.2.5"
