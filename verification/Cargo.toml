[package]
name = "script_bundler"
version = "0.1.0"
edition = "2021"
publish = false

[dependencies]
base64 = "*"
dotenv = "*"
reqwest = { version = "*", default-features = false, features = ["blocking"] }
zip = { version = "*", default-features = false }
