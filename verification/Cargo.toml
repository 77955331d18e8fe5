[package]
name = "rembi"
version = "0.1.0"
edition = "2021"
publish = false

[dependencies]
iref = { version = "*", features = ["serde"] }
jiff = { version = "*", features = ["serde"] }
monostate = "*"
serde = { version = "*", features = ["derive"] }
url = { version = "*", features = ["serde"] }
validator = { version = "*", features = ["derive"] }

[dev-dependencies]
serde_json = "*"
