[package]
name = "startsmall"
version = "0.1.0"
edition = "2021"
publish = false

[dependencies]
clap = { version = "4", features = ["derive"] }
csv = "1"
git2 = { version = "0.20", default-features = false }
nostr-sdk = "*"
reqwest = { version = "0.12", default-features = false, features = ["blocking", "rustls-tls"] }
sha2 = "0.10"
subtle = "2"
tiny_http = "0.12"
tokio = { version = "1", features = ["rt-multi-thread"] }
