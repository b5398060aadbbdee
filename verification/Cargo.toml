[package]
name = "bedrock_updater"
version = "0.1.0"
edition = "2021"
publish = false

[dependencies]
regex = "1"
scraper = "*"
serde = { version = "1", features = ["derive"] }
serde_json = "1"
reqwest = { version = "0.12", default-features = false, features = ["blocking", "rustls-tls"] }
ureq = "2"
ssh2 = "0.9"
confy = "0.6"
tempdir = "0.3"
zip = { version = "0.6", default-features = false, features = ["deflate"] }
