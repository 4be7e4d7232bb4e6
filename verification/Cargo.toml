[package]
name = "jacanaoesta"
version = "0.1.0"
edition = "2021"
publish = false

[dependencies]
chrono = { version = "0.4", default-features = false, features = ["std", "clock"] }
clap = "4"
reqwest = { version = "0.12", features = ["blocking", "json"] }
rpassword = "7"
serde = { version = "1", features = ["derive"] }
url = "2"
