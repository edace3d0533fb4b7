[package]
name = "fork"
version = "0.1.0"
edition = "2021"
publish = false

[dependencies]
rusqlite = { version = "*", features = ["bundled"] }
git2 = { version = "*", default-features = false }
clap = "*"
toml = "*"
serde = { version = "*", features = ["derive"] }
actix-web = "*"
mime = "*"
