[package]
name = "crawler"
version = "0.1.0"
edition = "2021"
publish = false

[dependencies]
scraper = "*"
html2text = "*"
axum = "*"
tokio = { version = "*", features = ["macros", "rt-multi-thread", "time"] }
fantoccini = { version = "*", default-features = false, features = ["rustls-tls"] }
serde = { version = "*", features = ["derive"] }
serde_json = "*"
dotenvy = "*"
