[package]
name = "portmon"
version = "0.1.0"
edition = "2021"
publish = false

[dependencies]
anyhow = "1"
clap = { version = "4", features = ["derive"] }
cli-clipboard = "0.4"
crossterm = { version = "0.28", features = ["event-stream"] }
futures = "0.3"
nix = { version = "0.29", features = ["signal", "user"] }
open = "5"
procfs = "0.17"
ratatui = "0.29"
serde = { version = "1", features = ["derive"] }
serde_json = "1"
tabled = "0.16"
thiserror = "2"
tokio = { version = "1", features = ["full"] }
uzers = "0.12"
