[package]
name = "mdbook_renderkit"
version = "0.1.0"
edition = "2021"
publish = false

[dependencies]
pulldown-cmark = { version = "=0.13.6", default-features = false, features = ["html"] }
syntect = { version = "=5.3.0", default-features = false, features = ["default-fancy"] }
mime_guess = "=2.0.5"
mdbook-renderer = "=0.5.4"
epub-builder = "=0.8.3"
anyhow = "1"
clap = { version = "4", default-features = false, features = ["std", "help", "usage", "error-context"] }
serde = { version = "1", features = ["derive"] }
serde_json = "1"
