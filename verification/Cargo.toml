[package]
name = "danawa_watch"
version = "0.1.0"
edition = "2021"
publish = false

[dependencies]
chrono = "0.4"
config = "0.11"
num-format = "0.4"
reqwest = "0.11"
serde = { version = "1", features = ["derive"] }
tokio = { version = "1", features = ["macros", "rt-multi-thread"] }
toml = "0.5"
unhtml = "*"
unhtml_derive = "*"
