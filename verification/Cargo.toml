[package]
name = "mh"
version = "0.5.0"
edition = "2021"
publish = false

[dependencies]
ctrlc = "3"
serde = { version = "1", features = ["derive"] }
serde_json = "1"
sha2 = "0.10"
ureq = { version = "2", features = ["json"] }
