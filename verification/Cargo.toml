[package]
name = "cedar-agent"
version = "0.1.0"
edition = "2021"
publish = false

[dependencies]
cedar-policy = "2"
sha2 = "0.10"
clap = { version = "4", features = ["derive"] }
envy = "0.4"
log = { version = "0.4", features = ["serde"] }
rocket = { version = "0.5", features = ["json"] }
rocket_okapi = { version = "*", features = ["swagger", "rapidoc"] }
serde = { version = "1", features = ["derive"] }
serde_json = "1"
