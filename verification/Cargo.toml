[package]
name = "mutual_credit"
version = "0.1.0"
edition = "2021"
publish = false

[dependencies]
hdk = "=0.2.8"
hdi = "=0.3.8"
holo_hash = "=0.2.8"
serde = { version = "=1.0.166", features = ["derive"] }
rmp = "=0.8.11"
