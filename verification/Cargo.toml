[package]
name = "gmail_tui"
version = "0.1.0"
edition = "2021"
publish = false

[dependencies]
base64 = "0.21"
html2text = "0.12"
pulldown-cmark = { version = "0.9", default-features = false }
unicode-width = "0.1"
serde = { version = "1", features = ["derive"] }
serde_json = "1"
tokio = { version = "1", features = ["full"] }
reqwest = { version = "0.11", default-features = false, features = ["json", "rustls-tls"] }
tui = "0.19"
crossterm = "0.25"
yup-oauth2 = "8"
