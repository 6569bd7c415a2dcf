[package]
name = "pdf2html"
version = "0.1.0"
edition = "2021"
publish = false

[dependencies]
sanitize-filename = "*"
uuid = { version = "*", features = ["v4"] }
actix-web = "*"
actix-files = "*"
actix-multipart = "*"
futures-util = "*"
serde = { version = "*", features = ["derive"] }
tokio = { version = "*", features = ["process", "time", "rt-multi-thread", "macros"] }
