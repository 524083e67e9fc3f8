[package]
name = "wishlist"
version = "0.1.0"
edition = "2021"
publish = false

[dependencies]
confy = "*"
regex = "1"
reqwest = { version = "*", features = ["blocking"] }
select = "*"
serde = "1"
serde_derive = "1"
serde_json = "1"
