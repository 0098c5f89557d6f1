[package]
name = "jampass"
version = "0.1.0"
edition = "2021"
publish = false

[dependencies]
adler = "1"
clap = { version = "4", features = ["derive"] }
dotenv = "0.15"
gray_matter = "*"
markdown = "*"
notify = "*"
serde_json = "1"
