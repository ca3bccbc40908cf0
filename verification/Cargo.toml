[package]
name = "ua_invest_tax"
version = "0.1.0"
edition = "2021"
publish = false

[dependencies]
rust_decimal = "1"
chrono = "0.4"
serde = { version = "1", features = ["derive"] }
quick-xml = { version = "0.31", features = ["serialize"] }
ureq = "2"
clap = { version = "4", features = ["derive"] }
