[package]
name = "eans"
version = "0.1.0"
edition = "2021"
publish = false

[dependencies]
actix-web = { version = "4", default-features = false, features = ["macros"] }
dotenvy = "*"
tokio = { version = "1", features = ["rt"] }
tokio-postgres = "*"
