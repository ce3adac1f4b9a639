[package]
name = "product_crawler"
version = "0.1.0"
edition = "2021"
publish = false

[dependencies]
reqwest = { version = "*", default-features = false }
tokio = { version = "*", features = ["macros", "rt-multi-thread"] }
scraper = "*"
serde = { version = "*", features = ["derive"] }
serde_json = "*"
