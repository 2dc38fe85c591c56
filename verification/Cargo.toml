[package]
name = "jstrings"
version = "0.1.0"
edition = "2021"
publish = false

[dependencies]
zip = { version = "*", default-features = false, features = ["deflate"] }
java-properties = "*"
shannon-entropy = "*"
docopt = "*"
serde = { version = "*", features = ["derive"] }
