[package]
name = "playerlink"
version = "0.1.0"
edition = "2021"
publish = false

[dependencies]
oauth2 = { version = "*", default-features = false }
url = "*"
serde_json = "*"
serde = { version = "*", features = ["derive"] }
reqwest = { version = "*", default-features = false }
tokio = { version = "*", features = ["net", "io-util", "rt"] }
webbrowser = "*"
