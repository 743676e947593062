[package]
name = "echo-cli"
version = "0.1.0"
edition = "2021"
publish = false

[dependencies]
clap = { version = "4", features = ["derive"] }
cpal = "0.15"
crossterm = "0.28"
directories = "6"
jwalk = "0.8"
lofty = "0.22"
ratatui = "0.29"
rayon = "1"
rusqlite = { version = "0.32", features = ["bundled"] }
thiserror = "2"
tracing = "0.1"
tracing-subscriber = { version = "0.3", features = ["env-filter"] }
walkdir = "2"
