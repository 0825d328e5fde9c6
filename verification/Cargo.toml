[package]
name = "esker"
version = "0.1.0"
edition = "2021"
publish = false

[dependencies]
axum = "0.6"
chrono = "0.4"
clap = { version = "4", features = ["derive"] }
colored = "2"
glob = "0.3"
hotwatch = "0.4"
html-escape = "0.2"
pulldown-cmark = { version = "0.9", default-features = false }
regex = "1"
serde = { version = "1", features = ["derive"] }
serde_yaml = "0.9"
slugify = "0.1"
syntect = { version = "5", default-features = false, features = ["default-fancy"] }
tera = "1"
tokio = { version = "1", features = ["full"] }
tower-http = { version = "0.4", features = ["fs"] }
url-escape = "0.1"
