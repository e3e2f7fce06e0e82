[package]
name = "appdb"
version = "0.1.0"
edition = "2021"
publish = false

[dependencies]
aes-gcm = "0.10"
rand = "0.10"
surrealdb-types = "3.1"
serde = { version = "1", features = ["derive"] }
serde_json = "1"
keyring = "3"
anyhow = "1"
thiserror = "2"
inventory = "0.3"
