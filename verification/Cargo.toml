[package]
name = "wer"
version = "0.1.0"
edition = "2021"
publish = false

[dependencies]
anyhow = "1"
chrono = { version = "0.4", default-features = false, features = ["clock", "std"] }
clap = { version = "4", features = ["derive"] }
git2 = { version = "*", default-features = false }
syntect = { version = "5", default-features = false, features = ["default-fancy"] }

[dev-dependencies]
tempfile = "3"
