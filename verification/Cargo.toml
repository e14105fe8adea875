[package]
name = "eduka"
version = "0.1.0"
edition = "2021"
publish = false

[dependencies]
unidecode = "*"
url = "*"
clap = { version = "*", features = ["derive"] }
lopdf = "*"
reqwest = { version = "*", default-features = false, features = ["json", "cookies", "rustls-tls"] }
serde = { version = "*", features = ["derive"] }
serde_json = "*"
thiserror = "*"
tokio = { version = "*", features = ["full"] }
