[package]
name = "mdvi"
version = "0.6.8"
edition = "2021"
publish = false

[dependencies]
anyhow = "1"
arboard = { version = "3.6", default-features = false }
clap = { version = "4.5", features = ["derive"] }
crossterm = "0.28"
image = { version = "0.25", default-features = false, features = ["png", "jpeg", "gif", "webp", "bmp"] }
pulldown-cmark = { version = "0.12", default-features = false }
ratatui = "0.29"
ratatui-image = { version = "8.1", default-features = false, features = ["crossterm"] }
regex = "1.11"
reqwest = { version = "0.12", default-features = false, features = ["blocking", "rustls-tls"] }
syntect = { version = "5.3", default-features = false, features = ["default-fancy"] }
unicode-width = "0.1"
