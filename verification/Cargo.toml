[package]
name = "ws_card_scraper"
version = "0.1.0"
edition = "2021"
publish = false

[dependencies]
chrono = "*"
csv = "*"
thirtyfour = "*"
tokio = { version = "*", features = ["macros", "rt-multi-thread"] }
