[package]
name = "kactus"
version = "0.1.0"
edition = "2021"
publish = false

[dependencies]
gtfs-rt = "=0.5.0"
prost = "=0.11.9"
regex = "=1.13.1"
qstring = "=0.7.2"
fasthash = "=0.4.0"
rand = "=0.8.8"
serde = { version = "=1.0.229", features = ["derive"] }
serde_json = "=1.0.154"
csv = "=1.4.0"
redis = "=0.23.5"
actix = "=0.13.5"
actix-web = { version = "=4.18.1", default-features = false, features = ["macros"] }
actix-web-actors = "=4.3.1"
actix_block_ai_crawling = "=0.2.11"
reqwest = { version = "=0.11.27", default-features = false }
tokio = { version = "=1.54.1", features = ["macros", "rt-multi-thread", "time"] }
futures = "=0.3.34"
arguments = "=0.8.0"
systemctl = "*"
