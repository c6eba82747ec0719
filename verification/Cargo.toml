[package]
name = "gitlab_provider"
version = "0.1.0"
edition = "2021"
publish = false

[dependencies]
anyhow = "1"
console = "0.15"
serde = { version = "1", features = ["derive"] }
serde_json = "1"
structopt = "0.3"
ureq = { version = "1", features = ["json"] }
