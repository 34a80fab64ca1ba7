[package]
name = "packard"
version = "0.1.0"
edition = "2021"
publish = false

[dependencies]
rss = "*"
chrono = "*"
clap = { version = "*", features = ["derive"] }
serde = { version = "*", features = ["derive"] }
toml = "*"
xdg = "*"
reqwest = { version = "*", default-features = false }
tokio = { version = "*", features = ["macros", "rt-multi-thread"] }
futures = "*"
indicatif = "*"
