[package]
name = "hermes_core"
version = "0.1.0"
edition = "2021"
publish = false

[dependencies]
percent-encoding = "2"
form_urlencoded = "1"
http = "1"
serde = { version = "1", features = ["derive"] }
serde_html_form = "0.2"
