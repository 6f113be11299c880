[package]
name = "grok"
version = "2.0.0"
edition = "2021"
publish = false

[dependencies]
onig = { version = "6", default-features = false }
