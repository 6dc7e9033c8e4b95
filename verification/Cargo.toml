[package]
name = "s8n"
version = "0.2.0"
edition = "2021"
publish = false

[dependencies]
which = "6.0.3"
unicode-width = "=0.2.0"
async-trait = "0.1"
tokio = { version = "1", features = ["process", "macros", "rt-multi-thread", "time"] }
clap = { version = "4", features = ["derive"] }
crossterm = "0.28"
ratatui = "0.29"
serde = { version = "1", features = ["derive"] }
toml = "0.8"
