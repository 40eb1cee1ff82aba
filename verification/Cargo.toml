[package]
name = "r2fs"
version = "0.1.0"
edition = "2021"
publish = false

[dependencies]
aws-sign-v4 = "=0.3.0"
chrono = "=0.4.45"
ctrlc = "=3.5.2"
dotenv = "=0.15.0"
fuser = { version = "0.14", default-features = false }
libc = "=0.2.191"
reqwest = { version = "0.12", features = ["blocking"] }
serde = { version = "=1.0.229", features = ["derive"] }
serde-xml-rs = "=0.8.2"
sha2 = "=0.10.9"
