[package]
name = "bmoji"
version = "0.1.0"
edition = "2021"
publish = false

[dependencies]
emoji = "0.2.1"
tantivy = "0.22"
serde = { version = "1", features = ["derive"] }
serde_json = "1"
dconf_rs = "0.3"
