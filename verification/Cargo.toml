[package]
name = "statui"
version = "0.1.0"
edition = "2021"
publish = false

[dependencies]
chrono = "0.4"
color-eyre = "0.6"
config = { version = "0.15", default-features = false, features = ["toml"] }
directories = "*"
ratatui = "*"
reqwest = { version = "0.12", default-features = false, features = ["rustls-tls"] }
serde = { version = "1", features = ["derive"] }
tachyonfx = "*"
tokio = { version = "1", features = ["macros", "rt-multi-thread", "sync", "time"] }
