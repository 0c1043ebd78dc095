[package]
name = "cyrio"
version = "0.1.0"
edition = "2021"
publish = false

[dependencies]
encoding_rs = "0.8"
pinyin = "0.10"
serde = { version = "1", features = ["derive"] }
serde_json = "1"
smol = "2"
async-trait = "0.1"
walkdir = "2"
uuid = { version = "1", features = ["v4"] }
log = "0.4"
rodio = "0.20"
