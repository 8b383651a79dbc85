[package]
name = "acerola"
version = "0.1.0"
edition = "2021"
publish = false

[dependencies]
sha2 = "0.10"
aes-gcm = "0.10"
rand = "0.8"
lru = "*"
serde = { version = "1", features = ["derive"] }
serde_json = "1"
zip = { version = "*", default-features = false, features = ["deflate"] }
keyring = "*"
