[package]
name = "file_transfer"
version = "0.1.0"
edition = "2021"
publish = false

[dependencies]
actix-web = { version = "*", default-features = false, features = ["macros"] }
futures = "*"
futures-util = "*"
rand = "0.7"
tokio = { version = "*", features = ["fs", "io-util"] }
