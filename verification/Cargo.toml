[package]
name = "termusic"
version = "0.1.0"
edition = "2021"
publish = false

[dependencies]
anyhow = "=1.0.104"
base64 = "=0.23.1"
dirs = "=7.0.0"
pathdiff = "=0.2.3"
pinyin = "=0.11.0"
rand = "=0.10.3"
serde = { version = "=1.0.229", features = ["derive"] }
serde_json = "=1.0.151"
shellexpand = "=3.1.2"
symphonia = "=0.6.1"
tokio = { version = "=1.53.2", features = ["sync"] }
unicode-segmentation = "=1.13.3"
