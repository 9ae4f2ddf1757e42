[package]
name = "follower_watch"
version = "0.1.0"
edition = "2021"
publish = false

[dependencies]
egg-mode = "*"
r2d2 = "*"
r2d2_sqlite = "*"
rusqlite = { version = "*", features = ["bundled"] }
serde = { version = "*", features = ["derive"] }
tokio = { version = "*", features = ["rt", "macros"] }
toml = "*"
