[package]
name = "emoji_cmark"
version = "0.1.0"
edition = "2021"
publish = false

[dependencies]
gh-emoji = "1"
pico-args = "0.5"
pulldown-cmark = { version = "0.10", default-features = false, features = ["html"] }
