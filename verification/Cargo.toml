[package]
name = "moviebox_tui"
version = "0.1.0"
edition = "2021"
publish = false

[dependencies]
dirs = "6"
md-5 = "0.10"
reqwest = { version = "0.12", default-features = false, features = ["json", "rustls-tls"] }
serde = { version = "1", features = ["derive"] }
serde_json = "1"
thiserror = "2"
zip = { version = "2", default-features = false, features = ["deflate"] }
